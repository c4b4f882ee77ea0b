use nds_hal::interrupt::{
    critical_section_enter, critical_section_exit, disable_ime, enable_ime, irq_disable,
    irq_enable, read_ime, IRQType, IrqControl, IRQFlags, IRQ_ALL_BITS,
};

#[test]
fn nested_critical_sections_restore_in_order() {
    let mut control = IrqControl::new();
    enable_ime(&mut control);
    assert!(read_ime(&control));

    let outer = critical_section_enter(&mut control);
    assert!(!read_ime(&control));
    let inner = critical_section_enter(&mut control);
    assert!(!read_ime(&control));

    // Leaving the inner section must keep interrupts disabled: the outer
    // section is still open.
    critical_section_exit(&mut control, inner);
    assert!(!read_ime(&control));

    critical_section_exit(&mut control, outer);
    assert!(read_ime(&control));
}

#[test]
fn critical_section_does_not_enable_interrupts_that_were_off() {
    let mut control = IrqControl::new();
    disable_ime(&mut control);
    let cs = critical_section_enter(&mut control);
    assert!(!read_ime(&control));
    critical_section_exit(&mut control, cs);
    assert!(!read_ime(&control));
}

#[test]
fn irq_enable_sets_source_and_display_gates() {
    let mut control = IrqControl::new();
    enable_ime(&mut control);
    let flags = IRQFlags::from_irq(IRQType::Vblank).union(IRQFlags::from_irq(IRQType::Timer0));
    irq_enable(&mut control, flags);
    assert_eq!(control.ie, (1 << 0) | (1 << 3));
    // The vertical-blank request gate (bit 3) opens; the others stay shut.
    assert_eq!(control.dispstat, 1 << 3);
    // The master flag is restored by the surrounding critical section.
    assert!(control.ime);
}

#[test]
fn irq_disable_clears_source_and_display_gates() {
    let mut control = IrqControl::new();
    irq_enable(&mut control, IRQFlags::all());
    assert_eq!(control.ie, IRQ_ALL_BITS);
    assert_eq!(control.dispstat, (1 << 3) | (1 << 4) | (1 << 5));
    irq_disable(&mut control, IRQFlags::from_irq(IRQType::Hblank));
    assert_eq!(control.ie, IRQ_ALL_BITS & !(1 << 1));
    assert_eq!(control.dispstat, (1 << 3) | (1 << 5));
    irq_disable(&mut control, IRQFlags::all());
    assert_eq!(control.ie, 0);
    assert_eq!(control.dispstat, 0);
}

#[test]
fn irq_bits_match_the_register_layout() {
    assert_eq!(IRQType::Vblank.bit_index(), 0);
    assert_eq!(IRQType::Keypad.bit_index(), 12);
    assert_eq!(IRQType::Slot2.bit_index(), 13);
    // Bits 14 and 15 are unused by the hardware.
    assert_eq!(IRQType::IPCSync.bit_index(), 16);
    assert_eq!(IRQType::Wifi.bit_index(), 24);
    assert_eq!(IRQType::GeometryFIFO.mask(), 1 << 21);
    assert_eq!(IRQFlags::all().bits, 0x01FF3FFF);
    assert!(IRQFlags::all().contains(IRQType::Lid));
    assert!(!IRQFlags::empty().contains(IRQType::Lid));
}
