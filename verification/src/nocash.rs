//! Debug output to an emulator's message window.
//!
//! Some emulators expose a character-out register: each value written to
//! it appends one character to the debug window.  [`DebugPort`] models
//! that register as the sequence of values written so far; a thin layer
//! outside the library forwards each value with a volatile store.

use vstd::prelude::*;
use vstd::string::StringSliceAdditionalSpecFns;

verus! {

/// Model of the emulator's character-out register: everything written to
/// it, in order.
pub struct DebugPort {
    written: Vec<u32>,
}

impl DebugPort {
    /// The values written so far, oldest first.
    pub closed spec fn log(self) -> Seq<u32> {
        self.written@
    }

    /// A port with nothing written yet.
    pub fn new() -> (r: DebugPort)
        ensures
            r.log() == Seq::<u32>::empty(),
    {
        DebugPort { written: Vec::new() }
    }

    /// The values written so far, for the layer that forwards them.
    pub fn writes(&self) -> (r: &Vec<u32>)
        ensures
            r@ == self.log(),
    {
        &self.written
    }
}

/// Prints a message to the emulator's debug window, one byte per register
/// write.
pub fn print2(port: &mut DebugPort, s: &str)
    ensures
        final(port).log() == old(port).log() + s.spec_bytes().map_values(|b: u8| b as u32),
{
    let bytes = s.as_bytes();
    let ghost base = port.log();
    let mut i: usize = 0;
    proof {
        assert(port.log() =~= base + bytes@.subrange(0, 0).map_values(|b: u8| b as u32));
    }
    while i < bytes.len()
        invariant
            0 <= i <= bytes@.len(),
            bytes@ == s.spec_bytes(),
            port.log() == base + bytes@.subrange(0, i as int).map_values(|b: u8| b as u32),
        decreases bytes@.len() - i,
    {
        port.written.push(bytes[i] as u32);
        proof {
            assert(port.log() =~= base + bytes@.subrange(0, i + 1).map_values(
                |b: u8| b as u32,
            ));
        }
        i = i + 1;
    }
    proof {
        assert(bytes@.subrange(0, bytes@.len() as int) =~= bytes@);
    }
}

} // verus!
