# ssrs

A speech-to-text command line tool built on Whisper models. The crate is a
Verus library (`src/`) that holds the tool's logic with its proofs, and a
program (`app/`) that does the file, network and model work around it.

- `src/cache.rs` – the manifest of downloaded models, kept in ascending id
  order, and the download timestamps.
- `src/paths.rs` – where the cache, the manifest and each model live.
- `src/transcript.rs` – plain text, joined text and SRT output.
- `src/whisper.rs` – audio chunking, when to detect the language, greedy
  decoding, language entries of the vocabulary, the sampler's random step.
- `src/prompt.rs` – the decoder prompt, looked up in a `tokenizers` vocabulary.
- `src/hub.rs`, `src/model.rs` – search URL, tables, weight choice, model files.
- `src/text.rs`, `src/order.rs` – trimming, decimal rendering, padding and
  the order of ids.
