//! Verified core of the dictation desktop tool: hotkey parsing and matching,
//! transcript clean-up rules, settings model, settings bridge helpers and the
//! small decision procedures that drive the overlay.
#![allow(unused_imports)]

pub mod text;
pub mod hotkey;
pub mod transcript;
pub mod settings;
pub mod llm;
pub mod bridge;
pub mod model;
pub mod logs;
pub mod autostart;
pub mod audio;
pub mod ui;
pub mod paths;
pub mod canonical;
