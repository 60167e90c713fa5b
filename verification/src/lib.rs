//! Verified core of a speech-to-text command line tool: the local model
//! cache, the text it prints, and the decisions that drive transcription.
pub mod cache;
pub mod cli;
pub mod hub;
pub mod model;
pub mod order;
pub mod paths;
pub mod prompt;
pub mod text;
pub mod transcript;
pub mod whisper;
