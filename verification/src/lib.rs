//! Morse code from a single push-button: the code table and codec, the
//! duration-classifying button scanner, and the blink player's schedule.
//!
//! Everything here is pure: callers sample the button, drive the indicators
//! and wait out each quantum themselves, and hand this crate plain values.

use vstd::prelude::*;

pub mod bounded;
pub mod button;
pub mod led;
pub mod modes;
pub mod morse;
pub mod serial;

verus! {

/// Capacity of a code buffer: the number of codes one passage can hold. A
/// line of text has the same capacity, in bytes.
pub const BUFFER_LENGTH: usize = 64;

/// Capacity, in bytes, of the dot/dash notation of a buffer: up to five marks
/// and a space for each code.
pub const NOTATION_LENGTH: usize = 6 * BUFFER_LENGTH;

/// Capacity, in bytes, of the dot/dash notation of a single code.
pub const PATTERN_LENGTH: usize = 20;

} // verus!
