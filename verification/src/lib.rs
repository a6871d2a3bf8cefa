//! Platform-agnostic recording model, validation rules, playback preparation,
//! hotkey parsing and the input-translation rules of the regxorder recorder.

pub mod event;
pub mod error;
pub mod text;
pub mod hotkey;
pub mod recording;
pub mod session;
pub mod diagnostics;
pub mod backend;
pub mod global_hotkeys;
pub mod controller;
pub mod elevation;
pub mod environment;
pub mod input;
pub mod cli;
pub mod editor;
pub mod presentation;
pub mod ordering;
pub mod library;
pub mod shell;
