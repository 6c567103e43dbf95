//! The real-time transcription session: how frames, sentences, fallbacks and
//! notices are decided. Clocks, channels and engines belong to the caller.
pub mod ascii_polish;
pub mod circuit;
pub mod cloud_task;
pub mod config;
pub mod engine;
pub mod local_task;
pub mod monitor;
pub mod pacing;
pub mod polish_laws;
pub mod polisher;
pub mod progress;
pub mod sentence_buffer;
pub mod sentence_store;
pub mod types;
pub mod whisper;
