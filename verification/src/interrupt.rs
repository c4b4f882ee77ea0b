//! Model of the interrupt-control registers and the critical-section
//! primitive built on the interrupt master enable flag.
//!
//! The master enable flag is a single process-wide bit, not a nesting
//! counter, so a critical section must save the prior state on entry and
//! restore exactly that state on exit.  `CriticalSection` is the guard value
//! that carries the saved state from entry to exit.

use vstd::prelude::*;

verus! {

/// The interrupt sources of the platform, one per bit of the interrupt
/// enable register.
#[derive(Clone, Copy, PartialEq, Eq, Structural, Debug)]
pub enum IRQType {
    Vblank,
    Hblank,
    Vcount,
    Timer0,
    Timer1,
    Timer2,
    Timer3,
    Serial,
    DMA0,
    DMA1,
    DMA2,
    DMA3,
    Keypad,
    Slot2,
    IPCSync,
    IPCSendFifoEmpty,
    IPCRecvFifoNotEmpty,
    CartTransfer,
    CartIREQ,
    GeometryFIFO,
    Lid,
    SPI,
    Wifi,
}

impl IRQType {
    /// The bit position of this interrupt source in the interrupt enable
    /// register.
    pub open spec fn spec_bit_index(self) -> u32 {
        match self {
            IRQType::Vblank => 0,
            IRQType::Hblank => 1,
            IRQType::Vcount => 2,
            IRQType::Timer0 => 3,
            IRQType::Timer1 => 4,
            IRQType::Timer2 => 5,
            IRQType::Timer3 => 6,
            IRQType::Serial => 7,
            IRQType::DMA0 => 8,
            IRQType::DMA1 => 9,
            IRQType::DMA2 => 10,
            IRQType::DMA3 => 11,
            IRQType::Keypad => 12,
            IRQType::Slot2 => 13,
            IRQType::IPCSync => 16,
            IRQType::IPCSendFifoEmpty => 17,
            IRQType::IPCRecvFifoNotEmpty => 18,
            IRQType::CartTransfer => 19,
            IRQType::CartIREQ => 20,
            IRQType::GeometryFIFO => 21,
            IRQType::Lid => 22,
            IRQType::SPI => 23,
            IRQType::Wifi => 24,
        }
    }

    #[verifier::when_used_as_spec(spec_bit_index)]
    pub fn bit_index(self) -> (i: u32)
        ensures
            i == self.spec_bit_index(),
    {
        match self {
            IRQType::Vblank => 0,
            IRQType::Hblank => 1,
            IRQType::Vcount => 2,
            IRQType::Timer0 => 3,
            IRQType::Timer1 => 4,
            IRQType::Timer2 => 5,
            IRQType::Timer3 => 6,
            IRQType::Serial => 7,
            IRQType::DMA0 => 8,
            IRQType::DMA1 => 9,
            IRQType::DMA2 => 10,
            IRQType::DMA3 => 11,
            IRQType::Keypad => 12,
            IRQType::Slot2 => 13,
            IRQType::IPCSync => 16,
            IRQType::IPCSendFifoEmpty => 17,
            IRQType::IPCRecvFifoNotEmpty => 18,
            IRQType::CartTransfer => 19,
            IRQType::CartIREQ => 20,
            IRQType::GeometryFIFO => 21,
            IRQType::Lid => 22,
            IRQType::SPI => 23,
            IRQType::Wifi => 24,
        }
    }

    /// The single-bit mask of this interrupt source.
    pub fn mask(self) -> (m: u32)
        ensures
            m == 1u32 << self.spec_bit_index(),
    {
        let i = self.bit_index();
        assert(i <= 24);
        1u32 << i
    }
}

/// A set of interrupt sources, as a bitmap laid out like the interrupt
/// enable register.
#[derive(Clone, Copy, PartialEq, Eq, Structural, Debug)]
pub struct IRQFlags {
    pub bits: u32,
}

/// All interrupt-source bits the hardware defines: bits 0 to 13 and
/// bits 16 to 24.
pub const IRQ_ALL_BITS: u32 = 0x01FF3FFF;

impl IRQFlags {
    /// The empty set of interrupt sources.
    pub fn empty() -> (r: IRQFlags)
        ensures
            r.bits == 0,
    {
        IRQFlags { bits: 0 }
    }

    /// The set holding every interrupt source.
    pub fn all() -> (r: IRQFlags)
        ensures
            r.bits == IRQ_ALL_BITS,
    {
        IRQFlags { bits: IRQ_ALL_BITS }
    }

    pub fn from_bits(bits: u32) -> (r: IRQFlags)
        ensures
            r.bits == bits,
    {
        IRQFlags { bits }
    }

    /// The set holding exactly one interrupt source.
    pub fn from_irq(t: IRQType) -> (r: IRQFlags)
        ensures
            r.bits == 1u32 << t.spec_bit_index(),
    {
        IRQFlags { bits: t.mask() }
    }

    /// Whether this set holds the given interrupt source.
    pub open spec fn spec_contains(self, t: IRQType) -> bool {
        self.bits & (1u32 << t.spec_bit_index()) != 0
    }

    #[verifier::when_used_as_spec(spec_contains)]
    pub fn contains(self, t: IRQType) -> (r: bool)
        ensures
            r == self.spec_contains(t),
    {
        self.bits & t.mask() != 0
    }

    /// The union of two sets of interrupt sources.
    pub fn union(self, other: IRQFlags) -> (r: IRQFlags)
        ensures
            r.bits == self.bits | other.bits,
    {
        IRQFlags { bits: self.bits | other.bits }
    }
}

/// Model of the interrupt-control registers of one CPU: the master enable
/// flag, the per-source interrupt enable register, and the display status
/// register whose bits 3 to 5 gate the three display interrupts.
pub struct IrqControl {
    /// The interrupt master enable flag: `true` means interrupts are
    /// delivered.
    pub ime: bool,
    /// The per-source interrupt enable register.
    pub ie: u32,
    /// The display status register; bits 3, 4 and 5 enable the vertical
    /// blank, horizontal blank and scanline-match interrupt requests.
    pub dispstat: u16,
}

impl IrqControl {
    /// A register model in the reset state: interrupts masked everywhere.
    pub fn new() -> (r: IrqControl)
        ensures
            !r.ime,
            r.ie == 0,
            r.dispstat == 0,
    {
        IrqControl { ime: false, ie: 0, dispstat: 0 }
    }
}

/// Sets the interrupt master enable flag, allowing interrupts to run.
pub fn enable_ime(control: &mut IrqControl)
    ensures
        final(control).ime,
        final(control).ie == old(control).ie,
        final(control).dispstat == old(control).dispstat,
{
    control.ime = true;
}

/// Clears the interrupt master enable flag, preventing all interrupts from
/// running.
pub fn disable_ime(control: &mut IrqControl)
    ensures
        !final(control).ime,
        final(control).ie == old(control).ie,
        final(control).dispstat == old(control).dispstat,
{
    control.ime = false;
}

/// Reads the interrupt master enable flag.
///
/// Returns `false` if interrupts are disabled, `true` if they are enabled.
pub fn read_ime(control: &IrqControl) -> (e: bool)
    ensures
        e == control.ime,
{
    control.ime
}

/// Guard of an open critical section.  It records whether interrupts were
/// enabled when the section was entered, so that the exit can restore
/// exactly that state.
pub struct CriticalSection {
    pub prior_ime: bool,
}

/// The register state after entering a critical section: the master enable
/// flag is clear, everything else is untouched.
pub open spec fn spec_cs_enter(control: IrqControl) -> (IrqControl, CriticalSection) {
    (
        IrqControl { ime: false, ..control },
        CriticalSection { prior_ime: control.ime },
    )
}

/// The register state after leaving a critical section: the master enable
/// flag is restored to what the guard saved.
pub open spec fn spec_cs_exit(control: IrqControl, cs: CriticalSection) -> IrqControl {
    IrqControl { ime: cs.prior_ime, ..control }
}

/// Enters a critical section: saves the current master enable state in the
/// returned guard, then disables interrupt delivery.
pub fn critical_section_enter(control: &mut IrqControl) -> (cs: CriticalSection)
    ensures
        (*final(control), cs) == spec_cs_enter(*old(control)),
        !final(control).ime,
        cs.prior_ime == old(control).ime,
{
    let prior = read_ime(control);
    disable_ime(control);
    CriticalSection { prior_ime: prior }
}

/// Leaves a critical section: restores the master enable flag to the state
/// the guard saved on entry.  Interrupts are re-enabled only if they were
/// enabled when this section was entered.
pub fn critical_section_exit(control: &mut IrqControl, cs: CriticalSection)
    ensures
        *final(control) == spec_cs_exit(*old(control), cs),
        final(control).ime == cs.prior_ime,
        final(control).ie == old(control).ie,
        final(control).dispstat == old(control).dispstat,
{
    if cs.prior_ime {
        enable_ime(control);
    } else {
        disable_ime(control);
    }
}

/// Critical sections nest correctly even though the master enable flag is
/// a single bit: after entering an outer and then an inner section, leaving
/// the inner section keeps interrupts disabled, and only leaving the outer
/// section restores the state from before the outer entry.
pub proof fn lemma_critical_section_nesting(control0: IrqControl)
    ensures
        ({
            let (c1, outer) = spec_cs_enter(control0);
            let (c2, inner) = spec_cs_enter(c1);
            let c3 = spec_cs_exit(c2, inner);
            let c4 = spec_cs_exit(c3, outer);
            &&& !c3.ime
            &&& c4.ime == control0.ime
            &&& c4.ie == control0.ie
            &&& c4.dispstat == control0.dispstat
        }),
{
}

/// Enables the given interrupt sources: sets their bits in the interrupt
/// enable register, and for the three display interrupts also sets the
/// gating bit in the display status register.  Runs inside a critical
/// section, so the master enable flag is restored to its prior state.
pub fn irq_enable(control: &mut IrqControl, flags: IRQFlags)
    ensures
        final(control).ime == old(control).ime,
        final(control).ie == old(control).ie | flags.bits,
        final(control).dispstat == old(control).dispstat
            | (if flags.spec_contains(IRQType::Vblank) { 1u16 << 3 } else { 0 })
            | (if flags.spec_contains(IRQType::Hblank) { 1u16 << 4 } else { 0 })
            | (if flags.spec_contains(IRQType::Vcount) { 1u16 << 5 } else { 0 }),
{
    let cs = critical_section_enter(control);
    control.ie = control.ie | flags.bits;
    let vblank = flags.contains(IRQType::Vblank);
    let hblank = flags.contains(IRQType::Hblank);
    let vcount = flags.contains(IRQType::Vcount);
    control.dispstat = control.dispstat
        | (if vblank { 1u16 << 3 } else { 0 })
        | (if hblank { 1u16 << 4 } else { 0 })
        | (if vcount { 1u16 << 5 } else { 0 });
    critical_section_exit(control, cs);
}

/// Disables the given interrupt sources: clears their bits in the interrupt
/// enable register, and for the three display interrupts also clears the
/// gating bit in the display status register.  Runs inside a critical
/// section, so the master enable flag is restored to its prior state.
pub fn irq_disable(control: &mut IrqControl, flags: IRQFlags)
    ensures
        final(control).ime == old(control).ime,
        final(control).ie == old(control).ie & !flags.bits,
        final(control).dispstat == old(control).dispstat
            & !(if flags.spec_contains(IRQType::Vblank) { 1u16 << 3 } else { 0 })
            & !(if flags.spec_contains(IRQType::Hblank) { 1u16 << 4 } else { 0 })
            & !(if flags.spec_contains(IRQType::Vcount) { 1u16 << 5 } else { 0 }),
{
    let cs = critical_section_enter(control);
    control.ie = control.ie & !flags.bits;
    let vblank = flags.contains(IRQType::Vblank);
    let hblank = flags.contains(IRQType::Hblank);
    let vcount = flags.contains(IRQType::Vcount);
    control.dispstat = control.dispstat
        & !(if vblank { 1u16 << 3 } else { 0 })
        & !(if hblank { 1u16 << 4 } else { 0 })
        & !(if vcount { 1u16 << 5 } else { 0 });
    critical_section_exit(control, cs);
}

} // verus!
