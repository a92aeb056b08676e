//! Timed keyboard playback: key-expression parsing, key resolution,
//! keystroke planning, the playback scheduler and the playback controller.

pub mod keys;
pub mod parser;
pub mod keystroke;
pub mod scheduler;
pub mod controller;
