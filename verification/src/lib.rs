//! Voicy: speech capture, transcription, translation and synthesis,
//! with the decisions and text handling verified.
pub mod text;
pub mod tts;
pub mod audio;
pub mod hardware;
pub mod app_state;
pub mod downloader;
pub mod models;
pub mod translate;
pub mod whisper;
pub mod pipeline;
pub mod number_laws;
