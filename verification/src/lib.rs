//! Mounted-volume read/write testing: the decisions, formats and checks behind
//! the `urwtest-rs` tool.

pub mod cli;
pub mod console;
pub mod engine;
pub mod interactive;
pub mod manifest;
pub mod ordering;
pub mod pattern;
pub mod report;
pub mod text;
pub mod types;
pub mod volume;
