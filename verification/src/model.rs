//! Locating a downloaded model before it is loaded: its manifest entry, its
//! weight format and the files of its directory.
use vstd::prelude::*;
use crate::cache::{get_model, Manifest, ModelEntry, ModelVariant};
use crate::hub::{weights_file, weights_file_spec};
use crate::paths::{join_path, join_path_exec};

verus! {

/// The weight format of a model directory: quantized when its `model.gguf`
/// exists, full precision otherwise.
pub fn detect_variant(gguf_exists: bool) -> (v: ModelVariant)
    ensures
        gguf_exists <==> v is Gguf,
{
    if gguf_exists {
        ModelVariant::Gguf
    } else {
        ModelVariant::Safetensors
    }
}

/// The message when a model is asked for that was never downloaded.
pub open spec fn not_found_message(model_id: Seq<char>) -> Seq<char> {
    "Model '"@ + model_id + "' not found. Run `ssrs models download "@ + model_id + "` first."@
}

/// The manifest entry of the model to load.
pub fn find_model(manifest: &Manifest, model_id: &str) -> (r: Result<ModelEntry, String>)
    requires
        manifest.wf(),
    ensures
        match r {
            Ok(e) => manifest@.contains_key(model_id@) && e@ == manifest@[model_id@],
            Err(m) => !manifest@.contains_key(model_id@) && m@ == not_found_message(model_id@),
        },
{
    match get_model(manifest, model_id) {
        Some(e) => Ok(e),
        None => {
            let mut m = String::from_str("Model '");
            m.append(model_id);
            m.append("' not found. Run `ssrs models download ");
            m.append(model_id);
            m.append("` first.");
            Err(m)
        },
    }
}

/// The files a model is loaded from.
pub struct ModelFiles {
    pub config: String,
    pub tokenizer: String,
    pub filters: String,
    pub weights: String,
}

/// The files of a model directory holding weights of format `variant`.
pub fn model_files(model_dir: &str, variant: ModelVariant) -> (r: ModelFiles)
    ensures
        r.config@ == join_path(model_dir@, "config.json"@),
        r.tokenizer@ == join_path(model_dir@, "tokenizer.json"@),
        r.filters@ == join_path(model_dir@, "mel_filters.npz"@),
        r.weights@ == join_path(model_dir@, weights_file_spec(variant)),
{
    ModelFiles {
        config: join_path_exec(model_dir, "config.json"),
        tokenizer: join_path_exec(model_dir, "tokenizer.json"),
        filters: join_path_exec(model_dir, "mel_filters.npz"),
        weights: join_path_exec(model_dir, weights_file(variant)),
    }
}

} // verus!
