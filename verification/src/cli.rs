//! The choices the command line offers.
use vstd::prelude::*;

verus! {

/// Where inference runs.
#[derive(Debug, Clone, Copy, PartialEq, Eq, Structural)]
pub enum Device {
    Cpu,
    Cuda,
}

/// The format a transcription is written in.
#[derive(Debug, Clone, Copy, PartialEq, Eq, Structural)]
pub enum OutputFormat {
    Txt,
    Srt,
    Json,
}

/// The model management commands.
pub enum ModelsAction {
    /// Search the Hub, at most `limit` results.
    Search { query: Option<String>, limit: usize },
    /// List the cached models.
    List,
    /// Download a model by its Hub id.
    Download { model_id: String },
    /// Remove a cached model.
    Remove { model_id: String },
}

} // verus!
