//! Core engine of a terminal typing trainer: the session state machine, the
//! per-character correctness tracker, pause-aware timing, the staged-settings
//! commit protocol and the accuracy calculation, all with verified contracts.
//! Terminal rendering, key-event input and configuration persistence are thin
//! shells around this library.

pub mod accuracy;
pub mod digits;
pub mod lang;
pub mod laws;
pub mod model;
pub mod session;
pub mod wordsource;
