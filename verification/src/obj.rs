//! Sprite attribute entries.
//!
//! A sprite occupies one object-attribute entry of 48 significant bits,
//! handled here as a packed `u64`.  Bit 8 distinguishes the two entry
//! layouts: clear for a normal sprite, set for an affine one.  The
//! accessors place and extract the individual fields; the volatile writes
//! into object attribute memory happen outside the library, using the
//! packed value and address computed here.

use vstd::prelude::*;
use crate::display::GfxEngine;

verus! {

/// The bit that marks an entry as an affine sprite.
pub const AFFINE_FLAG: u64 = 0x100;

/// Base address of the main engine's object attribute memory.
pub const OAM_BASE_MAIN: usize = 0x07000000;

/// Base address of the sub engine's object attribute memory.
pub const OAM_BASE_SUB: usize = 0x07000400;

/// A normal (non-affine) sprite entry.
#[derive(Clone, Copy, PartialEq, Eq, Structural, Debug)]
pub struct NormalSprite {
    bits: u64,
}

impl NormalSprite {
    /// The packed attribute bits.
    pub closed spec fn value(self) -> u64 {
        self.bits
    }

    /// An all-zero entry.
    pub fn new() -> (r: NormalSprite)
        ensures
            r.value() == 0,
    {
        NormalSprite { bits: 0 }
    }

    /// An entry with the given packed bits.
    pub fn from_bits(bits: u64) -> (r: NormalSprite)
        ensures
            r.value() == bits,
    {
        NormalSprite { bits }
    }

    /// The vertical position, bits 0 to 7.
    pub fn y(self) -> (v: u8)
        ensures
            v == (self.value() & 0xFF) as u8,
    {
        (self.bits & 0xFF) as u8
    }

    pub fn with_y(self, y: u8) -> (r: NormalSprite)
        ensures
            r.value() == (self.value() & !0xFFu64) | (y as u64),
    {
        NormalSprite { bits: (self.bits & !0xFFu64) | (y as u64) }
    }

    /// The disable flag, bit 9: a disabled sprite is not drawn.
    pub fn disable(self) -> (v: bool)
        ensures
            v == ((self.value() >> 9u64) & 1 == 1),
    {
        (self.bits >> 9u64) & 1 == 1
    }

    pub fn with_disable(self, disable: bool) -> (r: NormalSprite)
        ensures
            r.value() == (self.value() & !0x200u64) | (if disable {
                0x200u64
            } else {
                0
            }),
    {
        NormalSprite {
            bits: (self.bits & !0x200u64) | (if disable {
                0x200u64
            } else {
                0
            }),
        }
    }

    /// The horizontal position, nine bits starting at bit 16.
    pub fn x(self) -> (v: u16)
        ensures
            v == ((self.value() >> 16u64) & 0x1FF) as u16,
    {
        ((self.bits >> 16u64) & 0x1FF) as u16
    }

    pub fn with_x(self, x: u16) -> (r: NormalSprite)
        ensures
            r.value() == (self.value() & !0x01FF_0000u64) | (((x & 0x1FF) as u64) << 16u64),
    {
        NormalSprite { bits: (self.bits & !0x01FF_0000u64) | (((x & 0x1FF) as u64) << 16u64) }
    }

    /// The horizontal flip flag, bit 28.
    pub fn h_flip(self) -> (v: bool)
        ensures
            v == ((self.value() >> 28u64) & 1 == 1),
    {
        (self.bits >> 28u64) & 1 == 1
    }

    pub fn with_h_flip(self, flip: bool) -> (r: NormalSprite)
        ensures
            r.value() == (self.value() & !0x1000_0000u64) | (if flip {
                0x1000_0000u64
            } else {
                0
            }),
    {
        NormalSprite {
            bits: (self.bits & !0x1000_0000u64) | (if flip {
                0x1000_0000u64
            } else {
                0
            }),
        }
    }

    /// The vertical flip flag, bit 29.
    pub fn v_flip(self) -> (v: bool)
        ensures
            v == ((self.value() >> 29u64) & 1 == 1),
    {
        (self.bits >> 29u64) & 1 == 1
    }

    pub fn with_v_flip(self, flip: bool) -> (r: NormalSprite)
        ensures
            r.value() == (self.value() & !0x2000_0000u64) | (if flip {
                0x2000_0000u64
            } else {
                0
            }),
    {
        NormalSprite {
            bits: (self.bits & !0x2000_0000u64) | (if flip {
                0x2000_0000u64
            } else {
                0
            }),
        }
    }

    /// The tile index, ten bits starting at bit 32.
    pub fn tile(self) -> (v: u16)
        ensures
            v == ((self.value() >> 32u64) & 0x3FF) as u16,
    {
        ((self.bits >> 32u64) & 0x3FF) as u16
    }

    pub fn with_tile(self, tile: u16) -> (r: NormalSprite)
        ensures
            r.value() == (self.value() & !0x03FF_0000_0000u64) | (((tile & 0x3FF) as u64)
                << 32u64),
    {
        NormalSprite {
            bits: (self.bits & !0x03FF_0000_0000u64) | (((tile & 0x3FF) as u64) << 32u64),
        }
    }

    /// The drawing priority, two bits starting at bit 42.
    pub fn priority(self) -> (v: u8)
        ensures
            v == ((self.value() >> 42u64) & 0x3) as u8,
    {
        ((self.bits >> 42u64) & 0x3) as u8
    }

    pub fn with_priority(self, priority: u8) -> (r: NormalSprite)
        ensures
            r.value() == (self.value() & !0x0C00_0000_0000u64) | (((priority & 0x3) as u64)
                << 42u64),
    {
        NormalSprite {
            bits: (self.bits & !0x0C00_0000_0000u64) | (((priority & 0x3) as u64) << 42u64),
        }
    }

    /// The palette number, four bits starting at bit 44.
    pub fn palette(self) -> (v: u8)
        ensures
            v == ((self.value() >> 44u64) & 0xF) as u8,
    {
        ((self.bits >> 44u64) & 0xF) as u8
    }

    pub fn with_palette(self, palette: u8) -> (r: NormalSprite)
        ensures
            r.value() == (self.value() & !0xF000_0000_0000u64) | (((palette & 0xF) as u64)
                << 44u64),
    {
        NormalSprite {
            bits: (self.bits & !0xF000_0000_0000u64) | (((palette & 0xF) as u64) << 44u64),
        }
    }
}

/// An affine (rotated or scaled) sprite entry.
#[derive(Clone, Copy, PartialEq, Eq, Structural, Debug)]
pub struct AffineSprite {
    bits: u64,
}

impl AffineSprite {
    /// The packed attribute bits.
    pub closed spec fn value(self) -> u64 {
        self.bits
    }

    /// An all-zero entry.
    pub fn new() -> (r: AffineSprite)
        ensures
            r.value() == 0,
    {
        AffineSprite { bits: 0 }
    }

    /// An entry with the given packed bits.
    pub fn from_bits(bits: u64) -> (r: AffineSprite)
        ensures
            r.value() == bits,
    {
        AffineSprite { bits }
    }

    /// The vertical position, bits 0 to 7.
    pub fn y(self) -> (v: u8)
        ensures
            v == (self.value() & 0xFF) as u8,
    {
        (self.bits & 0xFF) as u8
    }

    pub fn with_y(self, y: u8) -> (r: AffineSprite)
        ensures
            r.value() == (self.value() & !0xFFu64) | (y as u64),
    {
        AffineSprite { bits: (self.bits & !0xFFu64) | (y as u64) }
    }

    /// The double-size flag, bit 9.
    pub fn double_size(self) -> (v: bool)
        ensures
            v == ((self.value() >> 9u64) & 1 == 1),
    {
        (self.bits >> 9u64) & 1 == 1
    }

    pub fn with_double_size(self, double: bool) -> (r: AffineSprite)
        ensures
            r.value() == (self.value() & !0x200u64) | (if double {
                0x200u64
            } else {
                0
            }),
    {
        AffineSprite {
            bits: (self.bits & !0x200u64) | (if double {
                0x200u64
            } else {
                0
            }),
        }
    }

    /// The horizontal position, nine bits starting at bit 16.
    pub fn x(self) -> (v: u16)
        ensures
            v == ((self.value() >> 16u64) & 0x1FF) as u16,
    {
        ((self.bits >> 16u64) & 0x1FF) as u16
    }

    pub fn with_x(self, x: u16) -> (r: AffineSprite)
        ensures
            r.value() == (self.value() & !0x01FF_0000u64) | (((x & 0x1FF) as u64) << 16u64),
    {
        AffineSprite { bits: (self.bits & !0x01FF_0000u64) | (((x & 0x1FF) as u64) << 16u64) }
    }

    /// The affine parameter selector, five bits starting at bit 25.
    pub fn affine_param(self) -> (v: u8)
        ensures
            v == ((self.value() >> 25u64) & 0x1F) as u8,
    {
        ((self.bits >> 25u64) & 0x1F) as u8
    }

    pub fn with_affine_param(self, param: u8) -> (r: AffineSprite)
        ensures
            r.value() == (self.value() & !0x3E00_0000u64) | (((param & 0x1F) as u64) << 25u64),
    {
        AffineSprite {
            bits: (self.bits & !0x3E00_0000u64) | (((param & 0x1F) as u64) << 25u64),
        }
    }

    /// The tile index, ten bits starting at bit 32.
    pub fn tile(self) -> (v: u16)
        ensures
            v == ((self.value() >> 32u64) & 0x3FF) as u16,
    {
        ((self.bits >> 32u64) & 0x3FF) as u16
    }

    pub fn with_tile(self, tile: u16) -> (r: AffineSprite)
        ensures
            r.value() == (self.value() & !0x03FF_0000_0000u64) | (((tile & 0x3FF) as u64)
                << 32u64),
    {
        AffineSprite {
            bits: (self.bits & !0x03FF_0000_0000u64) | (((tile & 0x3FF) as u64) << 32u64),
        }
    }

    /// The palette number, four bits starting at bit 44.
    pub fn palette(self) -> (v: u8)
        ensures
            v == ((self.value() >> 44u64) & 0xF) as u8,
    {
        ((self.bits >> 44u64) & 0xF) as u8
    }

    pub fn with_palette(self, palette: u8) -> (r: AffineSprite)
        ensures
            r.value() == (self.value() & !0xF000_0000_0000u64) | (((palette & 0xF) as u64)
                << 44u64),
    {
        AffineSprite {
            bits: (self.bits & !0xF000_0000_0000u64) | (((palette & 0xF) as u64) << 44u64),
        }
    }
}

/// A sprite entry of either layout.
#[derive(Clone, Copy, PartialEq, Eq, Structural, Debug)]
pub enum Sprite {
    NormalSprite(NormalSprite),
    AffineSprite(AffineSprite),
}

/// The packed object-attribute word of a sprite: the layout bit is forced
/// clear for a normal sprite and set for an affine one.
pub open spec fn spec_sprite_obj_data(sprite: Sprite) -> u64 {
    match sprite {
        Sprite::NormalSprite(s) => s.value() & !(0x100u64),
        Sprite::AffineSprite(s) => s.value() | 0x100u64,
    }
}

#[verifier::when_used_as_spec(spec_sprite_obj_data)]
pub fn sprite_obj_data(sprite: Sprite) -> (d: u64)
    ensures
        d == spec_sprite_obj_data(sprite),
{
    match sprite {
        Sprite::NormalSprite(s) => s.bits & !(0x100u64),
        Sprite::AffineSprite(s) => s.bits | 0x100u64,
    }
}

/// Reads a sprite back from a packed object-attribute word, choosing the
/// layout by the flag bit.
pub fn sprite_from_obj_data(data: u64) -> (s: Sprite)
    ensures
        data & 0x100u64 != 0 ==> (s matches Sprite::AffineSprite(a) && a.value() == data),
        data & 0x100u64 == 0 ==> (s matches Sprite::NormalSprite(n) && n.value() == data),
{
    if data & 0x100u64 != 0 {
        Sprite::AffineSprite(AffineSprite::from_bits(data))
    } else {
        Sprite::NormalSprite(NormalSprite::from_bits(data))
    }
}

/// The address of a sprite's entry in object attribute memory: entries
/// are 8 bytes apart from the owning engine's base.
pub fn get_oam_addr(engine: GfxEngine, index: u8) -> (addr: usize)
    requires
        index <= 127,
    ensures
        addr == (match engine {
            GfxEngine::MAIN => OAM_BASE_MAIN,
            GfxEngine::SUB => OAM_BASE_SUB,
        }) + index * 8,
{
    let oam_addr = match engine {
        GfxEngine::MAIN => OAM_BASE_MAIN,
        GfxEngine::SUB => OAM_BASE_SUB,
    };
    oam_addr + (index as usize) * 8
}

} // verus!
