//! The choice between the two modes of the device.
//!
//! At the menu the caller counts the milliseconds for which the button is
//! held down. When the button comes up, the count decides the mode.

use vstd::prelude::*;

verus! {

/// A hold of more milliseconds than this selects the serial mode.
pub const SERIAL_MODE_HOLD: u32 = 300;

/// A hold of more milliseconds than this, up to `SERIAL_MODE_HOLD`, selects
/// the button mode. Anything shorter is taken for a bounce.
pub const BUTTON_MODE_HOLD: u32 = 1;

/// What the device does with the button and the serial port.
#[derive(Clone, Copy, Debug, PartialEq, Eq)]
pub enum Mode {
    /// Scans a passage from the button.
    Button,
    /// Reads a line of text from the serial port.
    Serial,
}

/// The mode that a hold of `held` milliseconds stands for, if any.
pub open spec fn selected(held: u32) -> Option<Mode> {
    if held > SERIAL_MODE_HOLD {
        Some(Mode::Serial)
    } else if held > BUTTON_MODE_HOLD {
        Some(Mode::Button)
    } else {
        None
    }
}

/// Decides the mode when the button comes up after `held` milliseconds.
pub fn select_mode(held: u32) -> (mode: Option<Mode>)
    ensures
        mode == selected(held),
{
    if held > SERIAL_MODE_HOLD {
        Some(Mode::Serial)
    } else if held > BUTTON_MODE_HOLD {
        Some(Mode::Button)
    } else {
        None
    }
}

} // verus!
