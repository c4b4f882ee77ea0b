//! Mapping of the video memory banks.
//!
//! Each bank has its own control register; writing a mode value routes the
//! bank to one of its possible uses.  A mode value packs three fields: the
//! use selector in the low 3 bits, an offset selector in bits 3 and 4, and
//! the enable flag in bit 7.  The enums below name each bank's legal modes
//! and carry the packed value; the registers themselves are modelled by
//! [`VramBanks`].

use vstd::prelude::*;

verus! {

/// Modes of the 128k bank A.
#[allow(non_camel_case_types)]
#[derive(Clone, Copy, PartialEq, Eq, Structural, Debug)]
pub enum A {
    LCDC,
    MAIN_BG_0,
    MAIN_BG_1,
    MAIN_BG_2,
    MAIN_BG_3,
    MAIN_OBJ_0,
    MAIN_OBJ_1,
    TEXTURE_0,
    TEXTURE_1,
    TEXTURE_2,
    TEXTURE_3,
}

impl A {
    /// The packed control-register value of this mode.
    pub open spec fn spec_control_value(self) -> u8 {
        match self {
            A::LCDC => 0x80,
            A::MAIN_BG_0 => 0x81,
            A::MAIN_BG_1 => 0x89,
            A::MAIN_BG_2 => 0x91,
            A::MAIN_BG_3 => 0x99,
            A::MAIN_OBJ_0 => 0x82,
            A::MAIN_OBJ_1 => 0x8A,
            A::TEXTURE_0 => 0x83,
            A::TEXTURE_1 => 0x8B,
            A::TEXTURE_2 => 0x93,
            A::TEXTURE_3 => 0x9B,
        }
    }

    #[verifier::when_used_as_spec(spec_control_value)]
    pub fn control_value(self) -> (v: u8)
        ensures
            v == self.spec_control_value(),
    {
        match self {
            A::LCDC => 0x80,
            A::MAIN_BG_0 => 0x81,
            A::MAIN_BG_1 => 0x89,
            A::MAIN_BG_2 => 0x91,
            A::MAIN_BG_3 => 0x99,
            A::MAIN_OBJ_0 => 0x82,
            A::MAIN_OBJ_1 => 0x8A,
            A::TEXTURE_0 => 0x83,
            A::TEXTURE_1 => 0x8B,
            A::TEXTURE_2 => 0x93,
            A::TEXTURE_3 => 0x9B,
        }
    }
}

/// Modes of the 128k bank B, the same set as bank A.
#[allow(non_camel_case_types)]
#[derive(Clone, Copy, PartialEq, Eq, Structural, Debug)]
pub enum B {
    LCDC,
    MAIN_BG_0,
    MAIN_BG_1,
    MAIN_BG_2,
    MAIN_BG_3,
    MAIN_OBJ_0,
    MAIN_OBJ_1,
    TEXTURE_0,
    TEXTURE_1,
    TEXTURE_2,
    TEXTURE_3,
}

impl B {
    /// The packed control-register value of this mode.
    pub open spec fn spec_control_value(self) -> u8 {
        match self {
            B::LCDC => 0x80,
            B::MAIN_BG_0 => 0x81,
            B::MAIN_BG_1 => 0x89,
            B::MAIN_BG_2 => 0x91,
            B::MAIN_BG_3 => 0x99,
            B::MAIN_OBJ_0 => 0x82,
            B::MAIN_OBJ_1 => 0x8A,
            B::TEXTURE_0 => 0x83,
            B::TEXTURE_1 => 0x8B,
            B::TEXTURE_2 => 0x93,
            B::TEXTURE_3 => 0x9B,
        }
    }

    #[verifier::when_used_as_spec(spec_control_value)]
    pub fn control_value(self) -> (v: u8)
        ensures
            v == self.spec_control_value(),
    {
        match self {
            B::LCDC => 0x80,
            B::MAIN_BG_0 => 0x81,
            B::MAIN_BG_1 => 0x89,
            B::MAIN_BG_2 => 0x91,
            B::MAIN_BG_3 => 0x99,
            B::MAIN_OBJ_0 => 0x82,
            B::MAIN_OBJ_1 => 0x8A,
            B::TEXTURE_0 => 0x83,
            B::TEXTURE_1 => 0x8B,
            B::TEXTURE_2 => 0x93,
            B::TEXTURE_3 => 0x9B,
        }
    }
}

/// Modes of the 128k bank C: backgrounds, a window for the other CPU, or
/// textures.
#[allow(non_camel_case_types)]
#[derive(Clone, Copy, PartialEq, Eq, Structural, Debug)]
pub enum C {
    LCDC,
    MAIN_BG_0,
    MAIN_BG_1,
    MAIN_BG_2,
    MAIN_BG_3,
    ARM7_0,
    ARM7_1,
    SUB_BG,
    TEXTURE_0,
    TEXTURE_1,
    TEXTURE_2,
    TEXTURE_3,
}

impl C {
    /// The packed control-register value of this mode.
    pub open spec fn spec_control_value(self) -> u8 {
        match self {
            C::LCDC => 0x80,
            C::MAIN_BG_0 => 0x81,
            C::MAIN_BG_1 => 0x89,
            C::MAIN_BG_2 => 0x91,
            C::MAIN_BG_3 => 0x99,
            C::ARM7_0 => 0x82,
            C::ARM7_1 => 0x8A,
            C::SUB_BG => 0x84,
            C::TEXTURE_0 => 0x83,
            C::TEXTURE_1 => 0x8B,
            C::TEXTURE_2 => 0x93,
            C::TEXTURE_3 => 0x9B,
        }
    }

    #[verifier::when_used_as_spec(spec_control_value)]
    pub fn control_value(self) -> (v: u8)
        ensures
            v == self.spec_control_value(),
    {
        match self {
            C::LCDC => 0x80,
            C::MAIN_BG_0 => 0x81,
            C::MAIN_BG_1 => 0x89,
            C::MAIN_BG_2 => 0x91,
            C::MAIN_BG_3 => 0x99,
            C::ARM7_0 => 0x82,
            C::ARM7_1 => 0x8A,
            C::SUB_BG => 0x84,
            C::TEXTURE_0 => 0x83,
            C::TEXTURE_1 => 0x8B,
            C::TEXTURE_2 => 0x93,
            C::TEXTURE_3 => 0x9B,
        }
    }
}

/// Modes of the 128k bank D: backgrounds, a window for the other CPU,
/// sub-engine sprites, or textures.
#[allow(non_camel_case_types)]
#[derive(Clone, Copy, PartialEq, Eq, Structural, Debug)]
pub enum D {
    LCDC,
    MAIN_BG_0,
    MAIN_BG_1,
    MAIN_BG_2,
    MAIN_BG_3,
    ARM7_0,
    ARM7_1,
    SUB_OBJ,
    TEXTURE_0,
    TEXTURE_1,
    TEXTURE_2,
    TEXTURE_3,
}

impl D {
    /// The packed control-register value of this mode.
    pub open spec fn spec_control_value(self) -> u8 {
        match self {
            D::LCDC => 0x80,
            D::MAIN_BG_0 => 0x81,
            D::MAIN_BG_1 => 0x89,
            D::MAIN_BG_2 => 0x91,
            D::MAIN_BG_3 => 0x99,
            D::ARM7_0 => 0x82,
            D::ARM7_1 => 0x8A,
            D::SUB_OBJ => 0x84,
            D::TEXTURE_0 => 0x83,
            D::TEXTURE_1 => 0x8B,
            D::TEXTURE_2 => 0x93,
            D::TEXTURE_3 => 0x9B,
        }
    }

    #[verifier::when_used_as_spec(spec_control_value)]
    pub fn control_value(self) -> (v: u8)
        ensures
            v == self.spec_control_value(),
    {
        match self {
            D::LCDC => 0x80,
            D::MAIN_BG_0 => 0x81,
            D::MAIN_BG_1 => 0x89,
            D::MAIN_BG_2 => 0x91,
            D::MAIN_BG_3 => 0x99,
            D::ARM7_0 => 0x82,
            D::ARM7_1 => 0x8A,
            D::SUB_OBJ => 0x84,
            D::TEXTURE_0 => 0x83,
            D::TEXTURE_1 => 0x8B,
            D::TEXTURE_2 => 0x93,
            D::TEXTURE_3 => 0x9B,
        }
    }
}

/// Modes of the 64k bank E.
#[allow(non_camel_case_types)]
#[derive(Clone, Copy, PartialEq, Eq, Structural, Debug)]
pub enum E {
    LCDC,
    MAIN_BG_0,
    MAIN_OBJ_0,
    MAIN_BG_EX_PAL_0_to_3,
    TEXTURE_PAL_0_to_3,
}

impl E {
    /// The packed control-register value of this mode.
    pub open spec fn spec_control_value(self) -> u8 {
        match self {
            E::LCDC => 0x80,
            E::MAIN_BG_0 => 0x81,
            E::MAIN_OBJ_0 => 0x82,
            E::MAIN_BG_EX_PAL_0_to_3 => 0x84,
            E::TEXTURE_PAL_0_to_3 => 0x83,
        }
    }

    #[verifier::when_used_as_spec(spec_control_value)]
    pub fn control_value(self) -> (v: u8)
        ensures
            v == self.spec_control_value(),
    {
        match self {
            E::LCDC => 0x80,
            E::MAIN_BG_0 => 0x81,
            E::MAIN_OBJ_0 => 0x82,
            E::MAIN_BG_EX_PAL_0_to_3 => 0x84,
            E::TEXTURE_PAL_0_to_3 => 0x83,
        }
    }
}

/// Modes of the 16k bank F.
#[allow(non_camel_case_types)]
#[derive(Clone, Copy, PartialEq, Eq, Structural, Debug)]
pub enum F {
    LCDC,
    MAIN_BG_0_0,
    MAIN_BG_0_1,
    MAIN_BG_0_2,
    MAIN_BG_0_3,
    MAIN_OBJ_0_0,
    MAIN_OBJ_0_1,
    MAIN_OBJ_0_2,
    MAIN_OBJ_0_3,
    MAIN_BG_EX_PAL_0_to_1,
    MAIN_BG_EX_PAL_2_to_3,
    MAIN_OBJ_EX_PAL,
    TEXTURE_PAL_0,
    TEXTURE_PAL_1,
    TEXTURE_PAL_4,
    TEXTURE_PAL_5,
}

impl F {
    /// The packed control-register value of this mode.
    pub open spec fn spec_control_value(self) -> u8 {
        match self {
            F::LCDC => 0x80,
            F::MAIN_BG_0_0 => 0x81,
            F::MAIN_BG_0_1 => 0x89,
            F::MAIN_BG_0_2 => 0x91,
            F::MAIN_BG_0_3 => 0x99,
            F::MAIN_OBJ_0_0 => 0x82,
            F::MAIN_OBJ_0_1 => 0x8A,
            F::MAIN_OBJ_0_2 => 0x92,
            F::MAIN_OBJ_0_3 => 0x9A,
            F::MAIN_BG_EX_PAL_0_to_1 => 0x84,
            F::MAIN_BG_EX_PAL_2_to_3 => 0x8C,
            F::MAIN_OBJ_EX_PAL => 0x85,
            F::TEXTURE_PAL_0 => 0x83,
            F::TEXTURE_PAL_1 => 0x8B,
            F::TEXTURE_PAL_4 => 0x93,
            F::TEXTURE_PAL_5 => 0x9B,
        }
    }

    #[verifier::when_used_as_spec(spec_control_value)]
    pub fn control_value(self) -> (v: u8)
        ensures
            v == self.spec_control_value(),
    {
        match self {
            F::LCDC => 0x80,
            F::MAIN_BG_0_0 => 0x81,
            F::MAIN_BG_0_1 => 0x89,
            F::MAIN_BG_0_2 => 0x91,
            F::MAIN_BG_0_3 => 0x99,
            F::MAIN_OBJ_0_0 => 0x82,
            F::MAIN_OBJ_0_1 => 0x8A,
            F::MAIN_OBJ_0_2 => 0x92,
            F::MAIN_OBJ_0_3 => 0x9A,
            F::MAIN_BG_EX_PAL_0_to_1 => 0x84,
            F::MAIN_BG_EX_PAL_2_to_3 => 0x8C,
            F::MAIN_OBJ_EX_PAL => 0x85,
            F::TEXTURE_PAL_0 => 0x83,
            F::TEXTURE_PAL_1 => 0x8B,
            F::TEXTURE_PAL_4 => 0x93,
            F::TEXTURE_PAL_5 => 0x9B,
        }
    }
}

/// Modes of the 16k bank G, the same set as bank F.
#[allow(non_camel_case_types)]
#[derive(Clone, Copy, PartialEq, Eq, Structural, Debug)]
pub enum G {
    LCDC,
    MAIN_BG_0_0,
    MAIN_BG_0_1,
    MAIN_BG_0_2,
    MAIN_BG_0_3,
    MAIN_OBJ_0_0,
    MAIN_OBJ_0_1,
    MAIN_OBJ_0_2,
    MAIN_OBJ_0_3,
    MAIN_BG_EX_PAL_0_to_1,
    MAIN_BG_EX_PAL_2_to_3,
    MAIN_OBJ_EX_PAL,
    TEXTURE_PAL_0,
    TEXTURE_PAL_1,
    TEXTURE_PAL_4,
    TEXTURE_PAL_5,
}

impl G {
    /// The packed control-register value of this mode.
    pub open spec fn spec_control_value(self) -> u8 {
        match self {
            G::LCDC => 0x80,
            G::MAIN_BG_0_0 => 0x81,
            G::MAIN_BG_0_1 => 0x89,
            G::MAIN_BG_0_2 => 0x91,
            G::MAIN_BG_0_3 => 0x99,
            G::MAIN_OBJ_0_0 => 0x82,
            G::MAIN_OBJ_0_1 => 0x8A,
            G::MAIN_OBJ_0_2 => 0x92,
            G::MAIN_OBJ_0_3 => 0x9A,
            G::MAIN_BG_EX_PAL_0_to_1 => 0x84,
            G::MAIN_BG_EX_PAL_2_to_3 => 0x8C,
            G::MAIN_OBJ_EX_PAL => 0x85,
            G::TEXTURE_PAL_0 => 0x83,
            G::TEXTURE_PAL_1 => 0x8B,
            G::TEXTURE_PAL_4 => 0x93,
            G::TEXTURE_PAL_5 => 0x9B,
        }
    }

    #[verifier::when_used_as_spec(spec_control_value)]
    pub fn control_value(self) -> (v: u8)
        ensures
            v == self.spec_control_value(),
    {
        match self {
            G::LCDC => 0x80,
            G::MAIN_BG_0_0 => 0x81,
            G::MAIN_BG_0_1 => 0x89,
            G::MAIN_BG_0_2 => 0x91,
            G::MAIN_BG_0_3 => 0x99,
            G::MAIN_OBJ_0_0 => 0x82,
            G::MAIN_OBJ_0_1 => 0x8A,
            G::MAIN_OBJ_0_2 => 0x92,
            G::MAIN_OBJ_0_3 => 0x9A,
            G::MAIN_BG_EX_PAL_0_to_1 => 0x84,
            G::MAIN_BG_EX_PAL_2_to_3 => 0x8C,
            G::MAIN_OBJ_EX_PAL => 0x85,
            G::TEXTURE_PAL_0 => 0x83,
            G::TEXTURE_PAL_1 => 0x8B,
            G::TEXTURE_PAL_4 => 0x93,
            G::TEXTURE_PAL_5 => 0x9B,
        }
    }
}

/// Modes of the 32k bank H.
#[allow(non_camel_case_types)]
#[derive(Clone, Copy, PartialEq, Eq, Structural, Debug)]
pub enum H {
    LCDC,
    SUB_BG,
    SUB_BG_EX_PAL,
}

impl H {
    /// The packed control-register value of this mode.
    pub open spec fn spec_control_value(self) -> u8 {
        match self {
            H::LCDC => 0x80,
            H::SUB_BG => 0x81,
            H::SUB_BG_EX_PAL => 0x82,
        }
    }

    #[verifier::when_used_as_spec(spec_control_value)]
    pub fn control_value(self) -> (v: u8)
        ensures
            v == self.spec_control_value(),
    {
        match self {
            H::LCDC => 0x80,
            H::SUB_BG => 0x81,
            H::SUB_BG_EX_PAL => 0x82,
        }
    }
}

/// Modes of the 16k bank I.
#[allow(non_camel_case_types)]
#[derive(Clone, Copy, PartialEq, Eq, Structural, Debug)]
pub enum I {
    LCDC,
    SUB_BG,
    SUB_OBJ,
    SUB_OBJ_EX_PAL,
}

impl I {
    /// The packed control-register value of this mode.
    pub open spec fn spec_control_value(self) -> u8 {
        match self {
            I::LCDC => 0x80,
            I::SUB_BG => 0x81,
            I::SUB_OBJ => 0x82,
            I::SUB_OBJ_EX_PAL => 0x83,
        }
    }

    #[verifier::when_used_as_spec(spec_control_value)]
    pub fn control_value(self) -> (v: u8)
        ensures
            v == self.spec_control_value(),
    {
        match self {
            I::LCDC => 0x80,
            I::SUB_BG => 0x81,
            I::SUB_OBJ => 0x82,
            I::SUB_OBJ_EX_PAL => 0x83,
        }
    }
}

/// Model of the nine bank control registers.
pub struct VramBanks {
    pub a: u8,
    pub b: u8,
    pub c: u8,
    pub d: u8,
    pub e: u8,
    pub f: u8,
    pub g: u8,
    pub h: u8,
    pub i: u8,
}

impl VramBanks {
    /// All banks disabled, the reset state.
    pub fn new() -> (r: VramBanks)
        ensures
            r.a == 0 && r.b == 0 && r.c == 0 && r.d == 0 && r.e == 0 && r.f == 0 && r.g == 0
                && r.h == 0 && r.i == 0,
    {
        VramBanks { a: 0, b: 0, c: 0, d: 0, e: 0, f: 0, g: 0, h: 0, i: 0 }
    }
}

/// Routes bank A to the given use.
pub fn map_vram_block_a(banks: &mut VramBanks, vtype: A)
    ensures
        *final(banks) == (VramBanks { a: vtype.spec_control_value(), ..*old(banks) }),
{
    banks.a = vtype.control_value();
}

/// Routes bank B to the given use.
pub fn map_vram_block_b(banks: &mut VramBanks, vtype: B)
    ensures
        *final(banks) == (VramBanks { b: vtype.spec_control_value(), ..*old(banks) }),
{
    banks.b = vtype.control_value();
}

/// Routes bank C to the given use.
pub fn map_vram_block_c(banks: &mut VramBanks, vtype: C)
    ensures
        *final(banks) == (VramBanks { c: vtype.spec_control_value(), ..*old(banks) }),
{
    banks.c = vtype.control_value();
}

/// Routes bank D to the given use.
pub fn map_vram_block_d(banks: &mut VramBanks, vtype: D)
    ensures
        *final(banks) == (VramBanks { d: vtype.spec_control_value(), ..*old(banks) }),
{
    banks.d = vtype.control_value();
}

/// Routes bank E to the given use.
pub fn map_vram_block_e(banks: &mut VramBanks, vtype: E)
    ensures
        *final(banks) == (VramBanks { e: vtype.spec_control_value(), ..*old(banks) }),
{
    banks.e = vtype.control_value();
}

/// Routes bank F to the given use.
pub fn map_vram_block_f(banks: &mut VramBanks, vtype: F)
    ensures
        *final(banks) == (VramBanks { f: vtype.spec_control_value(), ..*old(banks) }),
{
    banks.f = vtype.control_value();
}

/// Routes bank G to the given use.
pub fn map_vram_block_g(banks: &mut VramBanks, vtype: G)
    ensures
        *final(banks) == (VramBanks { g: vtype.spec_control_value(), ..*old(banks) }),
{
    banks.g = vtype.control_value();
}

/// Routes bank H to the given use.
pub fn map_vram_block_h(banks: &mut VramBanks, vtype: H)
    ensures
        *final(banks) == (VramBanks { h: vtype.spec_control_value(), ..*old(banks) }),
{
    banks.h = vtype.control_value();
}

/// Routes bank I to the given use.
pub fn map_vram_block_i(banks: &mut VramBanks, vtype: I)
    ensures
        *final(banks) == (VramBanks { i: vtype.spec_control_value(), ..*old(banks) }),
{
    banks.i = vtype.control_value();
}

} // verus!
