//! The data both CPUs share.
//!
//! The shared region holds plain values with exactly one writer core and
//! one reader core each; no lock protects them.  Correctness rests on the
//! single-instruction access property of the cell layer, not on mutual
//! exclusion.

use vstd::prelude::*;
use crate::input::Buttons;

verus! {

/// The contents of the shared memory region: the button state the input
/// CPU publishes for the other CPU to read.
#[derive(Clone, Copy, PartialEq, Eq, Structural, Debug)]
pub struct SharedData {
    pub buttons: Buttons,
}

impl SharedData {
    /// The startup state: no button pressed.
    pub fn new() -> (r: SharedData)
        ensures
            r.buttons.bits == 0,
    {
        SharedData { buttons: Buttons { bits: 0 } }
    }
}

} // verus!
