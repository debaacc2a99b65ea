//! A typing-speed test engine: target-text generation, per-keystroke input
//! handling, character classification and words-per-minute.
use vstd::prelude::*;

pub mod diff;
pub mod language;
pub mod session;
pub mod wpm;

verus! {

/// The number of words in a test.
pub const SESSION_LENGTH: usize = 50;

} // verus!
