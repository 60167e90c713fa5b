use ssrs::prompt::{
    assemble_prompt, build_prompt, end_of_text_id, finish_prompt, start_of_transcript_id, language_token, resolve_prompt_tokens, PromptError, PromptTokens,
};
use ssrs::whisper::{
    decoding_language, language_of_token, lcg_draw, needs_language_detection, plan_chunks, ChunkSpan,
    GreedyDecoder, CHUNK_SAMPLES, MAX_DECODE_STEPS,
};
use tokenizers::models::wordlevel::WordLevel;
use tokenizers::pre_tokenizers::whitespace::Whitespace;
use tokenizers::Tokenizer;

fn span(start: usize, end: usize) -> ChunkSpan {
    ChunkSpan { start, end }
}

#[test]
fn short_audio_is_one_chunk() {
    assert_eq!(plan_chunks(0), vec![span(0, 0)]);
    assert_eq!(plan_chunks(16000), vec![span(0, 16000)]);
    assert_eq!(plan_chunks(CHUNK_SAMPLES), vec![span(0, 480000)]);
}

#[test]
fn long_audio_is_cut_in_thirty_second_chunks() {
    assert_eq!(plan_chunks(480001), vec![span(0, 480000), span(480000, 480001)]);
    assert_eq!(plan_chunks(960000), vec![span(0, 480000), span(480000, 960000)]);
    let plan = plan_chunks(1_000_000);
    assert_eq!(plan, vec![span(0, 480000), span(480000, 960000), span(960000, 1_000_000)]);
}

#[test]
fn language_is_detected_on_the_first_chunk_only() {
    assert!(needs_language_detection(Some("auto"), 0));
    assert!(needs_language_detection(None, 0));
    assert!(!needs_language_detection(Some("auto"), 1));
    assert!(!needs_language_detection(Some("es"), 0));
    assert_eq!(decoding_language(None), "en");
    assert_eq!(decoding_language(Some("es")), "es");
}

#[test]
fn greedy_decoding_stops_at_end_of_text() {
    let mut d = GreedyDecoder::new(vec![1, 2], 99);
    assert!(d.is_first_step());
    d.advance(5);
    assert!(!d.is_first_step());
    d.advance(6);
    assert_eq!(d.tokens(), &vec![1, 2, 5, 6]);
    d.advance(99);
    assert!(d.is_finished());
    assert_eq!(d.generated(), &vec![5, 6]);
    assert_eq!(d.tokens(), &vec![1, 2, 5, 6]);
}

#[test]
fn greedy_decoding_stops_after_the_step_limit() {
    let mut d = GreedyDecoder::new(vec![], 0);
    let mut n = 0;
    while !d.is_finished() {
        d.advance(7);
        n += 1;
    }
    assert_eq!(n, MAX_DECODE_STEPS);
    assert_eq!(d.generated().len(), 448);
}

#[test]
fn language_tokens_are_recognised() {
    assert_eq!(language_of_token("<|en|>"), Some("en".to_string()));
    assert_eq!(language_of_token("<|é|>"), Some("é".to_string()));
    assert_eq!(language_of_token("<|haw|>"), None);
    assert_eq!(language_of_token("<|endoftext|>"), None);
    assert_eq!(language_of_token("en"), None);
    assert_eq!(language_of_token("<||>"), None);
    assert_eq!(language_of_token(""), None);
}

#[test]
fn lcg_draw_takes_the_top_bits() {
    let seed: u64 = 123456789;
    let expected = (seed.wrapping_mul(6364136223846793005).wrapping_add(1442695040888963407) >> 40) as u32;
    assert_eq!(lcg_draw(seed), expected);
    assert_eq!(lcg_draw(0), (1442695040888963407u64 >> 40) as u32);
    assert!(lcg_draw(u64::MAX) < (1 << 24));
}

#[test]
fn prompt_tokens_report_the_first_missing() {
    assert_eq!(resolve_prompt_tokens(None, None, None, "en", None), Err(PromptError::MissingSot));
    assert_eq!(resolve_prompt_tokens(Some(1), None, None, "en", None), Err(PromptError::MissingTranscribe));
    assert_eq!(
        resolve_prompt_tokens(Some(1), Some(2), None, "en", None),
        Err(PromptError::MissingNoTimestamps)
    );
    let e = resolve_prompt_tokens(Some(1), Some(2), Some(3), "xx", None).unwrap_err();
    assert_eq!(e, PromptError::UnsupportedLanguage("xx".to_string()));
    assert_eq!(e.message(), "Language 'xx' not supported");
    assert_eq!(
        resolve_prompt_tokens(Some(1), Some(2), Some(3), "en", Some(4)),
        Ok(PromptTokens { sot: 1, language: 4, transcribe: 2, no_timestamps: 3 })
    );
    assert_eq!(PromptError::Encode("bad".to_string()).message(), "Failed to encode initial prompt: bad");
    assert_eq!(PromptError::MissingSot.message(), "Missing SOT token");
}

#[test]
fn prompts_end_with_the_special_tokens() {
    let t = PromptTokens { sot: 10, language: 11, transcribe: 12, no_timestamps: 13 };
    assert_eq!(assemble_prompt(vec![1, 2], t), vec![1, 2, 10, 11, 12, 13]);
    assert_eq!(assemble_prompt(vec![], t), vec![10, 11, 12, 13]);
    assert_eq!(language_token("es"), "<|es|>");
}

fn small_tokenizer() -> Tokenizer {
    let vocab = [
        ("[UNK]", 0),
        ("<|startoftranscript|>", 50),
        ("<|transcribe|>", 51),
        ("<|notimestamps|>", 52),
        ("<|en|>", 53),
        ("<|endoftext|>", 54),
        ("hello", 7),
        ("world", 8),
    ]
    .iter()
    .map(|(k, v)| (k.to_string(), *v));
    let model = WordLevel::builder().vocab(vocab.collect()).unk_token("[UNK]".to_string()).build().unwrap();
    let mut tok = Tokenizer::new(model);
    tok.with_pre_tokenizer(Some(Whitespace {}));
    tok
}

#[test]
fn build_prompt_looks_up_the_vocabulary() {
    let tok = small_tokenizer();
    assert_eq!(build_prompt(&tok, "en", None), Ok(vec![50, 53, 51, 52]));
    assert_eq!(build_prompt(&tok, "en", Some("hello world")), Ok(vec![7, 8, 50, 53, 51, 52]));
    assert_eq!(
        build_prompt(&tok, "fr", None),
        Err(PromptError::UnsupportedLanguage("fr".to_string()))
    );
}

#[test]
fn finish_prompt_puts_the_encoding_first() {
    let t = PromptTokens { sot: 10, language: 11, transcribe: 12, no_timestamps: 13 };
    assert_eq!(finish_prompt(t, None), Ok(vec![10, 11, 12, 13]));
    assert_eq!(finish_prompt(t, Some(Ok(vec![3, 4]))), Ok(vec![3, 4, 10, 11, 12, 13]));
    assert_eq!(
        finish_prompt(t, Some(Err("bad".to_string()))),
        Err(PromptError::Encode("bad".to_string()))
    );
}

#[test]
fn special_token_ids_come_from_the_vocabulary() {
    let tok = small_tokenizer();
    assert_eq!(end_of_text_id(&tok), Some(54));
    assert_eq!(start_of_transcript_id(&tok), Some(50));
}
