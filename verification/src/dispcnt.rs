//! Display and background control register values.
//!
//! Each control register packs many small fields into one word.  The
//! types here carry the packed value and place or extract the fields the
//! platform defines; the volatile stores into the real registers happen
//! outside the library.

use vstd::prelude::*;

verus! {

/// The main engine's display control register value.
///
/// Field layout: background mode in bits 0 to 2, the 3D background flag
/// in bit 3, forced blank in bit 7, the four background layers in bits 8
/// to 11, sprites in bit 12, the windows in bits 13 and 14, and the
/// display mode in bits 16 and 17.
#[derive(Clone, Copy, PartialEq, Eq, Structural, Debug)]
pub struct DisplayControlMain {
    bits: u32,
}

impl DisplayControlMain {
    /// The packed register value.
    pub closed spec fn value(self) -> u32 {
        self.bits
    }

    /// An all-clear register value.
    pub fn new() -> (r: DisplayControlMain)
        ensures
            r.value() == 0,
    {
        DisplayControlMain { bits: 0 }
    }

    /// A register value read back from the hardware.
    pub fn from_bits(bits: u32) -> (r: DisplayControlMain)
        ensures
            r.value() == bits,
    {
        DisplayControlMain { bits }
    }

    /// The packed register value, for the layer that stores it.
    pub fn bits(self) -> (v: u32)
        ensures
            v == self.value(),
    {
        self.bits
    }

    /// The background mode, bits 0 to 2.
    pub fn bg_mode(self) -> (v: u8)
        ensures
            v == (self.value() & 0x7) as u8,
    {
        (self.bits & 0x7) as u8
    }

    pub fn with_bg_mode(self, mode: u8) -> (r: DisplayControlMain)
        ensures
            r.value() == (self.value() & !0x7u32) | ((mode & 0x7) as u32),
    {
        DisplayControlMain { bits: (self.bits & !0x7u32) | ((mode & 0x7) as u32) }
    }

    /// Whether background 0 is drawn by the 3D engine, bit 3.
    pub fn bg0_3d(self) -> (v: bool)
        ensures
            v == ((self.value() >> 3u32) & 1 == 1),
    {
        (self.bits >> 3u32) & 1 == 1
    }

    pub fn with_bg0_3d(self, on: bool) -> (r: DisplayControlMain)
        ensures
            r.value() == (self.value() & !0x8u32) | (if on {
                0x8u32
            } else {
                0
            }),
    {
        DisplayControlMain {
            bits: (self.bits & !0x8u32) | (if on {
                0x8u32
            } else {
                0
            }),
        }
    }

    /// The forced-blank flag, bit 7.
    pub fn forced_blank(self) -> (v: bool)
        ensures
            v == ((self.value() >> 7u32) & 1 == 1),
    {
        (self.bits >> 7u32) & 1 == 1
    }

    pub fn with_forced_blank(self, on: bool) -> (r: DisplayControlMain)
        ensures
            r.value() == (self.value() & !0x80u32) | (if on {
                0x80u32
            } else {
                0
            }),
    {
        DisplayControlMain {
            bits: (self.bits & !0x80u32) | (if on {
                0x80u32
            } else {
                0
            }),
        }
    }

    /// Whether background layer `n` (0 to 3) is shown, bits 8 to 11.
    pub fn display_bg(self, n: u8) -> (v: bool)
        requires
            n <= 3,
        ensures
            v == ((self.value() >> ((8 + n) as u32)) & 1 == 1),
    {
        (self.bits >> ((8 + n) as u32)) & 1 == 1
    }

    pub fn with_display_bg(self, n: u8, on: bool) -> (r: DisplayControlMain)
        requires
            n <= 3,
        ensures
            r.value() == (self.value() & !(1u32 << ((8 + n) as u32))) | (if on {
                1u32 << ((8 + n) as u32)
            } else {
                0
            }),
    {
        DisplayControlMain {
            bits: (self.bits & !(1u32 << ((8 + n) as u32))) | (if on {
                1u32 << ((8 + n) as u32)
            } else {
                0
            }),
        }
    }

    /// Whether sprites are shown, bit 12.
    pub fn display_obj(self) -> (v: bool)
        ensures
            v == ((self.value() >> 12u32) & 1 == 1),
    {
        (self.bits >> 12u32) & 1 == 1
    }

    pub fn with_display_obj(self, on: bool) -> (r: DisplayControlMain)
        ensures
            r.value() == (self.value() & !0x1000u32) | (if on {
                0x1000u32
            } else {
                0
            }),
    {
        DisplayControlMain {
            bits: (self.bits & !0x1000u32) | (if on {
                0x1000u32
            } else {
                0
            }),
        }
    }

    /// The display mode, bits 16 and 17.
    pub fn display_mode(self) -> (v: u8)
        ensures
            v == ((self.value() >> 16u32) & 0x3) as u8,
    {
        ((self.bits >> 16u32) & 0x3) as u8
    }

    pub fn with_display_mode(self, mode: u8) -> (r: DisplayControlMain)
        ensures
            r.value() == (self.value() & !0x0003_0000u32) | (((mode & 0x3) as u32) << 16u32),
    {
        DisplayControlMain {
            bits: (self.bits & !0x0003_0000u32) | (((mode & 0x3) as u32) << 16u32),
        }
    }
}

/// The sub engine's display control register value.
///
/// The sub engine has no 3D background and no display-capture modes, but
/// the fields it shares with the main engine sit at the same bits:
/// background mode in bits 0 to 2, forced blank in bit 7, the layers in
/// bits 8 to 12, the windows in bits 13 and 14, the display mode in bits
/// 16 and 17, and the extended-palette enables in bits 30 and 31.
#[derive(Clone, Copy, PartialEq, Eq, Structural, Debug)]
pub struct DisplayControlSub {
    bits: u32,
}

impl DisplayControlSub {
    /// The packed register value.
    pub closed spec fn value(self) -> u32 {
        self.bits
    }

    /// An all-clear register value.
    pub fn new() -> (r: DisplayControlSub)
        ensures
            r.value() == 0,
    {
        DisplayControlSub { bits: 0 }
    }

    /// A register value read back from the hardware.
    pub fn from_bits(bits: u32) -> (r: DisplayControlSub)
        ensures
            r.value() == bits,
    {
        DisplayControlSub { bits }
    }

    /// The packed register value, for the layer that stores it.
    pub fn bits(self) -> (v: u32)
        ensures
            v == self.value(),
    {
        self.bits
    }

    /// The background mode, bits 0 to 2.
    pub fn bg_mode(self) -> (v: u8)
        ensures
            v == (self.value() & 0x7) as u8,
    {
        (self.bits & 0x7) as u8
    }

    pub fn with_bg_mode(self, mode: u8) -> (r: DisplayControlSub)
        ensures
            r.value() == (self.value() & !0x7u32) | ((mode & 0x7) as u32),
    {
        DisplayControlSub { bits: (self.bits & !0x7u32) | ((mode & 0x7) as u32) }
    }

    /// Whether background layer `n` (0 to 3) is shown, bits 8 to 11.
    pub fn display_bg(self, n: u8) -> (v: bool)
        requires
            n <= 3,
        ensures
            v == ((self.value() >> ((8 + n) as u32)) & 1 == 1),
    {
        (self.bits >> ((8 + n) as u32)) & 1 == 1
    }

    pub fn with_display_bg(self, n: u8, on: bool) -> (r: DisplayControlSub)
        requires
            n <= 3,
        ensures
            r.value() == (self.value() & !(1u32 << ((8 + n) as u32))) | (if on {
                1u32 << ((8 + n) as u32)
            } else {
                0
            }),
    {
        DisplayControlSub {
            bits: (self.bits & !(1u32 << ((8 + n) as u32))) | (if on {
                1u32 << ((8 + n) as u32)
            } else {
                0
            }),
        }
    }

    /// Whether sprites are shown, bit 12.
    pub fn display_obj(self) -> (v: bool)
        ensures
            v == ((self.value() >> 12u32) & 1 == 1),
    {
        (self.bits >> 12u32) & 1 == 1
    }

    pub fn with_display_obj(self, on: bool) -> (r: DisplayControlSub)
        ensures
            r.value() == (self.value() & !0x1000u32) | (if on {
                0x1000u32
            } else {
                0
            }),
    {
        DisplayControlSub {
            bits: (self.bits & !0x1000u32) | (if on {
                0x1000u32
            } else {
                0
            }),
        }
    }

    /// Whether window `n` (0 or 1) is enabled, bits 13 and 14.
    pub fn display_win(self, n: u8) -> (v: bool)
        requires
            n <= 1,
        ensures
            v == ((self.value() >> ((13 + n) as u32)) & 1 == 1),
    {
        (self.bits >> ((13 + n) as u32)) & 1 == 1
    }

    pub fn with_display_win(self, n: u8, on: bool) -> (r: DisplayControlSub)
        requires
            n <= 1,
        ensures
            r.value() == (self.value() & !(1u32 << ((13 + n) as u32))) | (if on {
                1u32 << ((13 + n) as u32)
            } else {
                0
            }),
    {
        DisplayControlSub {
            bits: (self.bits & !(1u32 << ((13 + n) as u32))) | (if on {
                1u32 << ((13 + n) as u32)
            } else {
                0
            }),
        }
    }

    /// The display mode, bits 16 and 17.
    pub fn display_mode(self) -> (v: u8)
        ensures
            v == ((self.value() >> 16u32) & 0x3) as u8,
    {
        ((self.bits >> 16u32) & 0x3) as u8
    }

    pub fn with_display_mode(self, mode: u8) -> (r: DisplayControlSub)
        ensures
            r.value() == (self.value() & !0x0003_0000u32) | (((mode & 0x3) as u32) << 16u32),
    {
        DisplayControlSub {
            bits: (self.bits & !0x0003_0000u32) | (((mode & 0x3) as u32) << 16u32),
        }
    }

    /// Whether the background extended palettes are enabled, bit 30.
    pub fn bg_ext_pal_enabled(self) -> (v: bool)
        ensures
            v == ((self.value() >> 30u32) & 1 == 1),
    {
        (self.bits >> 30u32) & 1 == 1
    }

    pub fn with_bg_ext_pal_enabled(self, on: bool) -> (r: DisplayControlSub)
        ensures
            r.value() == (self.value() & !0x4000_0000u32) | (if on {
                0x4000_0000u32
            } else {
                0
            }),
    {
        DisplayControlSub {
            bits: (self.bits & !0x4000_0000u32) | (if on {
                0x4000_0000u32
            } else {
                0
            }),
        }
    }
}

/// A background layer's control register value.
///
/// Field layout: priority in bits 0 and 1 (lower is in front), the tile
/// data base in bits 2 to 5, mosaic in bit 6, the palette setting in bit
/// 7, the tile map base in bits 8 to 12, and the screen size in bits 14
/// and 15.
#[derive(Clone, Copy, PartialEq, Eq, Structural, Debug)]
pub struct BackgroundControl {
    bits: u16,
}

impl BackgroundControl {
    /// The packed register value.
    pub closed spec fn value(self) -> u16 {
        self.bits
    }

    /// An all-clear register value.
    pub fn new() -> (r: BackgroundControl)
        ensures
            r.value() == 0,
    {
        BackgroundControl { bits: 0 }
    }

    /// A register value read back from the hardware.
    pub fn from_bits(bits: u16) -> (r: BackgroundControl)
        ensures
            r.value() == bits,
    {
        BackgroundControl { bits }
    }

    /// The packed register value, for the layer that stores it.
    pub fn bits(self) -> (v: u16)
        ensures
            v == self.value(),
    {
        self.bits
    }

    /// The drawing priority, bits 0 and 1.
    pub fn priority(self) -> (v: u8)
        ensures
            v == (self.value() & 0x3) as u8,
    {
        (self.bits & 0x3) as u8
    }

    pub fn with_priority(self, priority: u8) -> (r: BackgroundControl)
        ensures
            r.value() == (self.value() & !0x3u16) | ((priority & 0x3) as u16),
    {
        BackgroundControl { bits: (self.bits & !0x3u16) | ((priority & 0x3) as u16) }
    }

    /// The tile data base block, bits 2 to 5.
    pub fn tiledata_base(self) -> (v: u8)
        ensures
            v == ((self.value() >> 2u16) & 0xF) as u8,
    {
        ((self.bits >> 2u16) & 0xF) as u8
    }

    pub fn with_tiledata_base(self, base: u8) -> (r: BackgroundControl)
        ensures
            r.value() == (self.value() & !0x3Cu16) | (((base & 0xF) as u16) << 2u16),
    {
        BackgroundControl { bits: (self.bits & !0x3Cu16) | (((base & 0xF) as u16) << 2u16) }
    }

    /// The mosaic flag, bit 6.
    pub fn mosaic_enabled(self) -> (v: bool)
        ensures
            v == ((self.value() >> 6u16) & 1 == 1),
    {
        (self.bits >> 6u16) & 1 == 1
    }

    pub fn with_mosaic_enabled(self, on: bool) -> (r: BackgroundControl)
        ensures
            r.value() == (self.value() & !0x40u16) | (if on {
                0x40u16
            } else {
                0
            }),
    {
        BackgroundControl {
            bits: (self.bits & !0x40u16) | (if on {
                0x40u16
            } else {
                0
            }),
        }
    }

    /// The palette setting, bit 7.
    pub fn palette_setting(self) -> (v: u8)
        ensures
            v == ((self.value() >> 7u16) & 1) as u8,
    {
        ((self.bits >> 7u16) & 1) as u8
    }

    pub fn with_palette_setting(self, setting: u8) -> (r: BackgroundControl)
        ensures
            r.value() == (self.value() & !0x80u16) | (((setting & 0x1) as u16) << 7u16),
    {
        BackgroundControl { bits: (self.bits & !0x80u16) | (((setting & 0x1) as u16) << 7u16) }
    }

    /// The tile map base block, bits 8 to 12.
    pub fn tilemap_base(self) -> (v: u8)
        ensures
            v == ((self.value() >> 8u16) & 0x1F) as u8,
    {
        ((self.bits >> 8u16) & 0x1F) as u8
    }

    pub fn with_tilemap_base(self, base: u8) -> (r: BackgroundControl)
        ensures
            r.value() == (self.value() & !0x1F00u16) | (((base & 0x1F) as u16) << 8u16),
    {
        BackgroundControl { bits: (self.bits & !0x1F00u16) | (((base & 0x1F) as u16) << 8u16) }
    }

    /// The screen size, bits 14 and 15.
    pub fn screen_size(self) -> (v: u8)
        ensures
            v == ((self.value() >> 14u16) & 0x3) as u8,
    {
        ((self.bits >> 14u16) & 0x3) as u8
    }

    pub fn with_screen_size(self, size: u8) -> (r: BackgroundControl)
        ensures
            r.value() == (self.value() & !0xC000u16) | (((size & 0x3) as u16) << 14u16),
    {
        BackgroundControl { bits: (self.bits & !0xC000u16) | (((size & 0x3) as u16) << 14u16) }
    }
}

} // verus!
