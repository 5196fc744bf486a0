//! A pitch-to-keystroke pipeline: audio samples are buffered, analysed one
//! window at a time, the detected frequency is mapped to a symbolic key, and
//! a debounce/hold/repeat state machine turns the per-window classifications
//! into discrete press, repeat and release events.

pub mod buffer;
pub mod classifier;
pub mod keystate;
pub mod pipeline;
