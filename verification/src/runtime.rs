//! The startup sequence that runs before user code.
//!
//! On the target it is entered from the reset path with interrupts still
//! disabled: it powers the graphics engines on, hands the allocator its
//! memory region, masks every interrupt source, and only then sets the
//! interrupt master enable flag.  Here the sequence runs over the register
//! models; resetting the default brightness and installing the empty
//! handler slot are bare register and function-pointer stores done
//! outside the library.

use vstd::prelude::*;
use crate::allocator::ACSLAlloc;
use crate::display::GfxPwr;
use crate::display::GFX_PWR_GEOMETRY_3D;
use crate::display::GFX_PWR_MAIN_2D;
use crate::display::GFX_PWR_RENDER_3D;
use crate::display::GFX_PWR_SUB_2D;
use crate::display::PowerControl;
use crate::interrupt::IRQFlags;
use crate::interrupt::IrqControl;
use crate::interrupt::IRQ_ALL_BITS;
use crate::interrupt::enable_ime;
use crate::interrupt::irq_disable;
use crate::display::power_on;

verus! {

/// Brings the system from reset to a state user code can run in: all
/// graphics engines powered, the heap ready, every interrupt source
/// masked, and interrupt delivery enabled.
pub fn lib_init(
    power: &mut PowerControl,
    irq: &mut IrqControl,
    heap: &mut ACSLAlloc,
    heap_start: usize,
    heap_size: usize,
)
    requires
        !old(heap).initialized(),
        heap_start % 4 == 0,
        heap_size % 4 == 0,
        8 <= heap_size,
        heap_start + heap_size + 4 <= usize::MAX,
    ensures
        final(power).powcnt1 == old(power).powcnt1 | (GFX_PWR_MAIN_2D | GFX_PWR_SUB_2D
            | GFX_PWR_RENDER_3D | GFX_PWR_GEOMETRY_3D),
        final(irq).ime,
        final(irq).ie == old(irq).ie & !IRQ_ALL_BITS,
        final(heap).wf(),
        final(heap).start() == heap_start,
        final(heap).size() == heap_size,
        final(heap).free_blocks() == seq![(heap_start, (heap_start + heap_size) as usize)],
        final(heap).allocated() == Set::<(usize, usize)>::empty(),
{
    power_on(power, GfxPwr::all());
    heap.init(heap_start, heap_size);
    irq_disable(irq, IRQFlags::all());
    enable_ime(irq);
}

} // verus!
