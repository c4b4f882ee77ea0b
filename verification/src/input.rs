//! Button input.
//!
//! The raw key registers report a clear bit for a pressed key, the normal
//! keys in one 16-bit register and the extra keys in another.  The packed
//! [`Buttons`] bitmap inverts that: a set bit means pressed, with the
//! extra keys in the high half-word.  The bitmap is the value the input
//! CPU publishes in the shared region for the other CPU to read.

use vstd::prelude::*;

verus! {

/// Bit of the A button.
pub const BUTTON_A: u32 = 1u32 << 0;

/// Bit of the B button.
pub const BUTTON_B: u32 = 1u32 << 1;

/// Bit of the select button.
pub const BUTTON_SELECT: u32 = 1u32 << 2;

/// Bit of the start button.
pub const BUTTON_START: u32 = 1u32 << 3;

/// Bit of the right direction.
pub const BUTTON_RIGHT: u32 = 1u32 << 4;

/// Bit of the left direction.
pub const BUTTON_LEFT: u32 = 1u32 << 5;

/// Bit of the up direction.
pub const BUTTON_UP: u32 = 1u32 << 6;

/// Bit of the down direction.
pub const BUTTON_DOWN: u32 = 1u32 << 7;

/// Bit of the right shoulder button.
pub const BUTTON_R: u32 = 1u32 << 8;

/// Bit of the left shoulder button.
pub const BUTTON_L: u32 = 1u32 << 9;

/// Bit of the X button.
pub const BUTTON_X: u32 = 1u32 << 16;

/// Bit of the Y button.
pub const BUTTON_Y: u32 = 1u32 << 17;

/// Bit of the internal debug contact, not normally pressable.
pub const BUTTON_DEBUG: u32 = 1u32 << 19;

/// Bit set whenever the touch screen is touched.
pub const BUTTON_PEN: u32 = 1u32 << 22;

/// Bit set when the console is closed.
pub const BUTTON_HINGE: u32 = 1u32 << 23;

/// A set of pressed buttons, one bit per key.
#[derive(Clone, Copy, PartialEq, Eq, Structural, Debug)]
pub struct Buttons {
    pub bits: u32,
}

impl Buttons {
    /// No button pressed.
    pub fn empty() -> (r: Buttons)
        ensures
            r.bits == 0,
    {
        Buttons { bits: 0 }
    }

    pub fn from_bits(bits: u32) -> (r: Buttons)
        ensures
            r.bits == bits,
    {
        Buttons { bits }
    }

    /// Whether every button of `mask` is pressed.
    pub fn contains(self, mask: u32) -> (r: bool)
        ensures
            r == (self.bits & mask == mask),
    {
        self.bits & mask == mask
    }
}

/// The button bitmap read from the raw key registers: the extra keys go
/// to the high half-word, and the whole word is inverted so that a set
/// bit means pressed.  The volatile register reads, and the store into
/// the shared region, happen outside the library.
pub fn buttons_from_raw(keyinput: u16, extkeyin: u16) -> (r: Buttons)
    ensures
        r.bits == !(((extkeyin as u32) << 16u32) | (keyinput as u32)),
{
    Buttons { bits: !(((extkeyin as u32) << 16u32) | (keyinput as u32)) }
}

} // verus!
