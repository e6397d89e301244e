//! Verified core of a local voice-dictation tool: settings validation,
//! hotkey chords, cleanup-prompt construction, correction learning and
//! streaming-transcript stabilisation.
use vstd::prelude::*;

pub mod app_settings;
pub mod bench;
pub mod captures;
pub mod commands;
pub mod context;
pub mod devices;
pub mod error;
pub mod history;
pub mod hotkey;
pub mod learning;
pub mod llama;
pub mod llm;
pub mod ocr;
pub mod paths;
pub mod pipeline;
pub mod prompt;
pub mod secrets;
pub mod session;
pub mod settings;
pub mod streaming;
pub mod stt;
pub mod text;
pub mod tray;
pub mod vad;

verus! {
} // verus!
