//! The token prompt a Whisper decoder starts from: the optional initial
//! prompt's tokens, then start-of-transcript, the language, transcribe and
//! no-timestamps.
use vstd::prelude::*;
use candle_transformers::models::whisper;
use tokenizers::Tokenizer;

verus! {

#[verifier::external_type_specification]
#[verifier::external_body]
pub struct ExTokenizer(Tokenizer);

/// What a tokenizer maps vocabulary entries to: its added tokens, and the
/// entries of its model's vocabulary that are not added tokens.
pub uninterp spec fn vocabulary(tokenizer: Tokenizer) -> Map<Seq<char>, u32>;

/// The id of `token` in a vocabulary, if it has one.
pub open spec fn vocab_lookup(vocab: Map<Seq<char>, u32>, token: Seq<char>) -> Option<u32> {
    if vocab.contains_key(token) {
        Some(vocab[token])
    } else {
        None
    }
}

/// The id of a vocabulary entry.
///
/// Calls tokenizers' `Tokenizer::token_to_id`, which looks the entry up
/// among the added tokens, then in the model's vocabulary (a map lookup for
/// every model the crate offers); the contract states it as one lookup in
/// [`vocabulary`].
#[verifier::external_body]
fn token_to_id(tokenizer: &Tokenizer, token: &str) -> (r: Option<u32>)
    ensures
        r == vocab_lookup(vocabulary(*tokenizer), token@),
{
    tokenizer.token_to_id(token)
}

/// Whether `outcome` is what encoding `text` with the tokenizer can give:
/// `Some` of the ids of an encoding, `None` for a failure.
///
/// The tokenizer's normalizer, pre-tokenizer, model and post-processor give
/// one outcome per text, except that a BPE model with merge dropout or a
/// Unigram model with sampling draws the ids at random; so this relates the
/// text to the outcomes it can have, not to a single one.
pub uninterp spec fn encoding_outcome(tokenizer: Tokenizer, text: Seq<char>, outcome: Option<Seq<u32>>) -> bool;

/// The token ids of `text`, special tokens added.
///
/// Calls tokenizers' `Tokenizer::encode(text, true)` and takes the ids of the
/// encoding; a failure becomes its message. The contract says only that the
/// outcome is one encoding can give; which ids those are is left to the
/// tokenizer's model.
#[verifier::external_body]
fn encode_ids(tokenizer: &Tokenizer, text: &str) -> (r: Result<Vec<u32>, String>)
    ensures
        encoding_outcome(
            *tokenizer,
            text@,
            match r {
                Ok(ids) => Some(ids@),
                Err(_) => None,
            },
        ),
{
    match tokenizer.encode(text, true) {
        Ok(encoding) => Ok(encoding.get_ids().to_vec()),
        Err(e) => Err(e.to_string()),
    }
}

/// candle-transformers' `whisper::EOT_TOKEN`, defined there as
/// `<|endoftext|>`.
#[verifier::external_body]
fn eot_token() -> (r: &'static str)
    ensures
        r@ == "<|endoftext|>"@,
{
    whisper::EOT_TOKEN
}

/// candle-transformers' `whisper::SOT_TOKEN`, defined there as
/// `<|startoftranscript|>`.
#[verifier::external_body]
fn sot_token() -> (r: &'static str)
    ensures
        r@ == "<|startoftranscript|>"@,
{
    whisper::SOT_TOKEN
}

/// candle-transformers' `whisper::TRANSCRIBE_TOKEN`, defined there as
/// `<|transcribe|>`.
#[verifier::external_body]
fn transcribe_token() -> (r: &'static str)
    ensures
        r@ == "<|transcribe|>"@,
{
    whisper::TRANSCRIBE_TOKEN
}

/// candle-transformers' `whisper::NO_TIMESTAMPS_TOKEN`, defined there as
/// `<|notimestamps|>`.
#[verifier::external_body]
fn no_timestamps_token() -> (r: &'static str)
    ensures
        r@ == "<|notimestamps|>"@,
{
    whisper::NO_TIMESTAMPS_TOKEN
}

/// Why no prompt could be built.
#[derive(Debug, PartialEq, Eq)]
pub enum PromptError {
    MissingSot,
    MissingTranscribe,
    MissingNoTimestamps,
    UnsupportedLanguage(String),
    Encode(String),
}

/// The ids of the special tokens every prompt ends with.
#[derive(Debug, Clone, Copy, PartialEq, Eq, Structural)]
pub struct PromptTokens {
    pub sot: u32,
    pub language: u32,
    pub transcribe: u32,
    pub no_timestamps: u32,
}

/// The message an error is reported with.
pub open spec fn prompt_error_message(e: PromptError) -> Seq<char> {
    match e {
        PromptError::MissingSot => "Missing SOT token"@,
        PromptError::MissingTranscribe => "Missing TRANSCRIBE token"@,
        PromptError::MissingNoTimestamps => "Missing NO_TIMESTAMPS token"@,
        PromptError::UnsupportedLanguage(l) => "Language '"@ + l@ + "' not supported"@,
        PromptError::Encode(m) => "Failed to encode initial prompt: "@ + m@,
    }
}

impl PromptError {
    /// The message the error is reported with.
    pub fn message(&self) -> (r: String)
        ensures
            r@ == prompt_error_message(*self),
    {
        match self {
            PromptError::MissingSot => String::from_str("Missing SOT token"),
            PromptError::MissingTranscribe => String::from_str("Missing TRANSCRIBE token"),
            PromptError::MissingNoTimestamps => String::from_str("Missing NO_TIMESTAMPS token"),
            PromptError::UnsupportedLanguage(l) => {
                let mut r = String::from_str("Language '");
                r.append(l.as_str());
                r.append("' not supported");
                r
            },
            PromptError::Encode(m) => {
                let mut r = String::from_str("Failed to encode initial prompt: ");
                r.append(m.as_str());
                r
            },
        }
    }
}

/// The vocabulary entry of a language: `<|lang|>`.
pub fn language_token(lang: &str) -> (r: String)
    ensures
        r@ == "<|"@ + lang@ + "|>"@,
{
    let mut r = String::from_str("<|");
    r.append(lang);
    r.append("|>");
    r
}

/// The special tokens of a prompt from the ids looked up, or the first one
/// missing, in the order start-of-transcript, transcribe, no-timestamps,
/// language.
pub fn resolve_prompt_tokens(
    sot: Option<u32>,
    transcribe: Option<u32>,
    no_timestamps: Option<u32>,
    lang: &str,
    language: Option<u32>,
) -> (r: Result<PromptTokens, PromptError>)
    ensures
        match r {
            Ok(t) => sot == Some(t.sot) && transcribe == Some(t.transcribe) && no_timestamps == Some(
                t.no_timestamps,
            ) && language == Some(t.language),
            Err(PromptError::MissingSot) => sot is None,
            Err(PromptError::MissingTranscribe) => sot is Some && transcribe is None,
            Err(PromptError::MissingNoTimestamps) => sot is Some && transcribe is Some
                && no_timestamps is None,
            Err(PromptError::UnsupportedLanguage(l)) => sot is Some && transcribe is Some
                && no_timestamps is Some && language is None && l@ == lang@,
            Err(PromptError::Encode(_)) => false,
        },
{
    let sot = match sot {
        Some(t) => t,
        None => return Err(PromptError::MissingSot),
    };
    let transcribe = match transcribe {
        Some(t) => t,
        None => return Err(PromptError::MissingTranscribe),
    };
    let no_timestamps = match no_timestamps {
        Some(t) => t,
        None => return Err(PromptError::MissingNoTimestamps),
    };
    let language = match language {
        Some(t) => t,
        None => return Err(PromptError::UnsupportedLanguage(String::from_str(lang))),
    };
    Ok(PromptTokens { sot, language, transcribe, no_timestamps })
}

/// The prompt: the initial prompt's ids, then start-of-transcript, the
/// language, transcribe and no-timestamps.
pub fn assemble_prompt(initial: Vec<u32>, tokens: PromptTokens) -> (r: Vec<u32>)
    ensures
        r@ == initial@ + seq![tokens.sot, tokens.language, tokens.transcribe, tokens.no_timestamps],
{
    let mut r = initial;
    r.push(tokens.sot);
    r.push(tokens.language);
    r.push(tokens.transcribe);
    r.push(tokens.no_timestamps);
    assert(r@ =~= initial@ + seq![
        tokens.sot,
        tokens.language,
        tokens.transcribe,
        tokens.no_timestamps,
    ]);
    r
}

/// The start-of-transcript id in a vocabulary.
pub open spec fn sot_id(v: Map<Seq<char>, u32>) -> Option<u32> {
    vocab_lookup(v, "<|startoftranscript|>"@)
}

/// The transcribe id in a vocabulary.
pub open spec fn transcribe_id(v: Map<Seq<char>, u32>) -> Option<u32> {
    vocab_lookup(v, "<|transcribe|>"@)
}

/// The no-timestamps id in a vocabulary.
pub open spec fn no_timestamps_id(v: Map<Seq<char>, u32>) -> Option<u32> {
    vocab_lookup(v, "<|notimestamps|>"@)
}

/// The id of language `lang` in a vocabulary.
pub open spec fn language_id(v: Map<Seq<char>, u32>, lang: Seq<char>) -> Option<u32> {
    vocab_lookup(v, "<|"@ + lang + "|>"@)
}

/// The prompt from its special tokens and the outcome of encoding the
/// initial prompt (`None` when there is none): the encoded ids followed by
/// the special tokens, or the encoding's failure.
pub fn finish_prompt(tokens: PromptTokens, encoded: Option<Result<Vec<u32>, String>>) -> (r: Result<
    Vec<u32>,
    PromptError,
>)
    ensures
        match encoded {
            None => r matches Ok(p) && p@ == seq![
                tokens.sot,
                tokens.language,
                tokens.transcribe,
                tokens.no_timestamps,
            ],
            Some(Ok(ids)) => r matches Ok(p) && p@ == ids@ + seq![
                tokens.sot,
                tokens.language,
                tokens.transcribe,
                tokens.no_timestamps,
            ],
            Some(Err(m)) => r == Err::<Vec<u32>, PromptError>(PromptError::Encode(m)),
        },
{
    match encoded {
        None => {
            let p = assemble_prompt(Vec::new(), tokens);
            assert(p@ =~= seq![tokens.sot, tokens.language, tokens.transcribe, tokens.no_timestamps]);
            Ok(p)
        },
        Some(Ok(ids)) => Ok(assemble_prompt(ids, tokens)),
        Some(Err(m)) => Err(PromptError::Encode(m)),
    }
}

/// The special tokens of a prompt in `lang`, found in a vocabulary.
pub open spec fn prompt_specials(v: Map<Seq<char>, u32>, lang: Seq<char>) -> Seq<u32> {
    seq![sot_id(v)->0, language_id(v, lang)->0, transcribe_id(v)->0, no_timestamps_id(v)->0]
}

/// The prompt to decode in `lang`, after the tokens of `initial_prompt`.
///
/// The special tokens are stated over the tokenizer's vocabulary; the
/// initial prompt's ids are an encoding the tokenizer can give for it.
pub fn build_prompt(tokenizer: &Tokenizer, lang: &str, initial_prompt: Option<&str>) -> (r: Result<
    Vec<u32>,
    PromptError,
>)
    ensures
        ({
            let v = vocabulary(*tokenizer);
            let found = sot_id(v) is Some && transcribe_id(v) is Some && no_timestamps_id(v) is Some
                && language_id(v, lang@) is Some;
            match r {
                Ok(p) => {
                    &&& found
                    &&& match initial_prompt {
                        None => p@ == prompt_specials(v, lang@),
                        Some(text) => exists|ids: Seq<u32>|
                            #![trigger encoding_outcome(*tokenizer, text@, Some(ids))]
                            encoding_outcome(*tokenizer, text@, Some(ids)) && p@ == ids
                                + prompt_specials(v, lang@),
                    }
                },
                Err(PromptError::MissingSot) => sot_id(v) is None,
                Err(PromptError::MissingTranscribe) => sot_id(v) is Some && transcribe_id(v) is None,
                Err(PromptError::MissingNoTimestamps) => sot_id(v) is Some && transcribe_id(v) is Some
                    && no_timestamps_id(v) is None,
                Err(PromptError::UnsupportedLanguage(l)) => sot_id(v) is Some && transcribe_id(v) is Some
                    && no_timestamps_id(v) is Some && language_id(v, lang@) is None && l@ == lang@,
                Err(PromptError::Encode(_)) => found && match initial_prompt {
                    Some(text) => encoding_outcome(*tokenizer, text@, None),
                    None => false,
                },
            }
        }),
{
    let sot = token_to_id(tokenizer, sot_token());
    let transcribe = token_to_id(tokenizer, transcribe_token());
    let no_timestamps = token_to_id(tokenizer, no_timestamps_token());
    let lang_token = language_token(lang);
    let language = token_to_id(tokenizer, lang_token.as_str());
    let tokens = match resolve_prompt_tokens(sot, transcribe, no_timestamps, lang, language) {
        Ok(t) => t,
        Err(e) => return Err(e),
    };
    let encoded = match initial_prompt {
        Some(text) => Some(encode_ids(tokenizer, text)),
        None => None,
    };
    finish_prompt(tokens, encoded)
}

/// The id of the end-of-text token in the tokenizer's vocabulary.
pub fn end_of_text_id(tokenizer: &Tokenizer) -> (r: Option<u32>)
    ensures
        r == vocab_lookup(vocabulary(*tokenizer), "<|endoftext|>"@),
{
    token_to_id(tokenizer, eot_token())
}

/// The id of the start-of-transcript token in the tokenizer's vocabulary.
pub fn start_of_transcript_id(tokenizer: &Tokenizer) -> (r: Option<u32>)
    ensures
        r == sot_id(vocabulary(*tokenizer)),
{
    token_to_id(tokenizer, sot_token())
}

} // verus!
