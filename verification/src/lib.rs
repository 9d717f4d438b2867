//! Push-to-talk voice dictation: hold a hotkey, talk, release, and the transcript
//! is typed into the focused window.
//!
//! This library decides everything that can be decided without touching the
//! system: what the settings amount to, which backend is used, when the microphone
//! is opened, which clips are worth transcribing, what is uploaded and what a
//! reply means, and what is typed, shown and logged. It is handed events and plain
//! values, and answers with what is to be done.

pub mod app;
pub mod audio;
pub mod config;
pub mod hotkey;
pub mod inject;
pub mod logging;
pub mod text;
pub mod transcription;
pub mod tray;
