//! Core of a text-translation service: request queueing and deduplication,
//! admission control, a retry policy for the remote chat endpoint, and
//! chunked splitting and reassembly of oversized text.

pub mod chars;
pub mod clipboard;
pub mod clock;
pub mod config;
pub mod hotkeys;
pub mod tray;
pub mod digits;
pub mod hash;
pub mod llm;
pub mod validation;
