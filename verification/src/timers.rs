//! The profiler built on two cascaded hardware timers.
//!
//! Two 16-bit timers chained into one 32-bit count measure code execution
//! time.  Starting and stopping the timers is raw register work done
//! outside the library; combining the two counters into the elapsed tick
//! count is computed here.

use vstd::prelude::*;

verus! {

/// The 32-bit tick count read from the cascaded pair: the second timer
/// holds the high half-word.
pub fn profiler_ticks(low: u16, high: u16) -> (t: u32)
    ensures
        t == ((high as u32) << 16u32) | (low as u32),
{
    ((high as u32) << 16u32) | (low as u32)
}

} // verus!
