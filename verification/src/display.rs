//! Display engine control: power bits, engine selection, brightness and
//! the scanline-match trigger.
//!
//! The power control register is modelled by [`PowerControl`]; the display
//! status register, shared with the interrupt machinery, lives in
//! [`crate::interrupt::IrqControl`].

use vstd::prelude::*;
use crate::interrupt::IrqControl;

verus! {

/// The two 2D/3D graphics engines.
#[derive(Clone, Copy, PartialEq, Eq, Structural, Debug)]
pub enum GfxEngine {
    MAIN,
    SUB,
}

impl GfxEngine {
    /// The register-address offset of this engine's block.
    pub open spec fn spec_offset(self) -> usize {
        match self {
            GfxEngine::MAIN => 0,
            GfxEngine::SUB => 0x1000,
        }
    }

    #[verifier::when_used_as_spec(spec_offset)]
    pub fn offset(self) -> (v: usize)
        ensures
            v == self.spec_offset(),
    {
        match self {
            GfxEngine::MAIN => 0,
            GfxEngine::SUB => 0x1000,
        }
    }
}

/// Which physical display the main engine drives.
#[derive(Clone, Copy, PartialEq, Eq, Structural, Debug)]
pub enum MainEnginePos {
    TOP,
    BOTTOM,
}

impl MainEnginePos {
    /// The power-control bit pattern selecting this position.
    pub open spec fn spec_bits(self) -> u32 {
        match self {
            MainEnginePos::TOP => 0x8000,
            MainEnginePos::BOTTOM => 0,
        }
    }

    #[verifier::when_used_as_spec(spec_bits)]
    pub fn bits(self) -> (v: u32)
        ensures
            v == self.spec_bits(),
    {
        match self {
            MainEnginePos::TOP => 0x8000,
            MainEnginePos::BOTTOM => 0,
        }
    }
}

/// A set of graphics power-control bits.
#[derive(Clone, Copy, PartialEq, Eq, Structural, Debug)]
pub struct GfxPwr {
    pub bits: u32,
}

/// Power bit of the main 2D engine.
pub const GFX_PWR_MAIN_2D: u32 = 0x2;

/// Power bit of the sub 2D engine.
pub const GFX_PWR_SUB_2D: u32 = 0x200;

/// Power bit of the 3D rendering engine.
pub const GFX_PWR_RENDER_3D: u32 = 0x4;

/// Power bit of the 3D geometry engine.
pub const GFX_PWR_GEOMETRY_3D: u32 = 0x8;

impl GfxPwr {
    pub fn from_bits(bits: u32) -> (r: GfxPwr)
        ensures
            r.bits == bits,
    {
        GfxPwr { bits }
    }

    /// Both 2D engines.
    pub fn all_2d() -> (r: GfxPwr)
        ensures
            r.bits == GFX_PWR_MAIN_2D | GFX_PWR_SUB_2D,
    {
        GfxPwr { bits: GFX_PWR_MAIN_2D | GFX_PWR_SUB_2D }
    }

    /// Every graphics engine.
    pub fn all() -> (r: GfxPwr)
        ensures
            r.bits == GFX_PWR_MAIN_2D | GFX_PWR_SUB_2D | GFX_PWR_RENDER_3D | GFX_PWR_GEOMETRY_3D,
    {
        GfxPwr {
            bits: GFX_PWR_MAIN_2D | GFX_PWR_SUB_2D | GFX_PWR_RENDER_3D | GFX_PWR_GEOMETRY_3D,
        }
    }
}

/// Model of the graphics power control register.
pub struct PowerControl {
    pub powcnt1: u32,
}

impl PowerControl {
    /// Everything powered down, the reset state.
    pub fn new() -> (r: PowerControl)
        ensures
            r.powcnt1 == 0,
    {
        PowerControl { powcnt1: 0 }
    }
}

/// Turns the given graphics engines on.
pub fn power_on(control: &mut PowerControl, pwrflags: GfxPwr)
    ensures
        final(control).powcnt1 == old(control).powcnt1 | pwrflags.bits,
{
    control.powcnt1 = control.powcnt1 | pwrflags.bits;
}

/// Turns the given graphics engines off.
pub fn power_off(control: &mut PowerControl, pwrflags: GfxPwr)
    ensures
        final(control).powcnt1 == old(control).powcnt1 & !pwrflags.bits,
{
    control.powcnt1 = control.powcnt1 & !pwrflags.bits;
}

/// Selects which display the main engine drives.
pub fn set_engine_lcd(control: &mut PowerControl, pos: MainEnginePos)
    ensures
        final(control).powcnt1 == (old(control).powcnt1 & !0x8000u32) | pos.spec_bits(),
{
    control.powcnt1 = (control.powcnt1 & !0x8000u32) | pos.bits();
}

/// Converts a standard hexcode (`0xRRGGBB`) to the 15-bit palette colour
/// format.
pub open spec fn spec_rgb15(x: u32) -> u16 {
    (((x & 0xF80000) >> 19) | ((x & 0x00F800) >> 6) | ((x & 0x0000F8) << 7)) as u16
}

#[verifier::when_used_as_spec(spec_rgb15)]
pub fn rgb15(x: u32) -> (c: u16)
    ensures
        c == spec_rgb15(x),
{
    (((x & 0xF80000) >> 19) | ((x & 0x00F800) >> 6) | ((x & 0x0000F8) << 7)) as u16
}

/// The master-brightness register value for a brightness level.
///
/// Negative levels darken (mode bits `2`), non-negative levels lighten
/// (mode bits `1`); the magnitude is clamped to 16.  Level 0 is the
/// neutral default, -16 is pure black, 16 pure white.
pub open spec fn spec_brightness_control(brightness: int) -> u32 {
    let mode: u32 = if brightness < 0 {
        2u32 << 14
    } else {
        1u32 << 14
    };
    let magnitude = if brightness < 0 {
        -brightness
    } else {
        brightness
    };
    let clamped = if magnitude > 16 {
        16
    } else {
        magnitude
    };
    mode | (clamped as u32)
}

/// Computes the value written to an engine's master-brightness register
/// for the given level; the volatile store itself happens outside the
/// library.
pub fn brightness_control_value(brightness: i32) -> (v: u32)
    requires
        i32::MIN < brightness,
    ensures
        v == spec_brightness_control(brightness as int),
{
    let mut level = brightness;
    let mut mode: u32 = 1u32 << 14;
    if level < 0 {
        level = -level;
        mode = 2u32 << 14;
    }
    if level > 16 {
        level = 16;
    }
    mode | (level as u32)
}

/// Sets the screen line the scanline counter triggers on.
///
/// Valid lines are 0 to 262: 0 is the top of the screen, 191 the bottom,
/// and 192 to 262 lie in the vertical blank.  The nine-bit line number is
/// stored in the high byte and bit 7 of the display status register; the
/// low bits, among them the interrupt gates, are preserved.
pub fn set_vcount_trigger(control: &mut IrqControl, line: u16)
    requires
        line < 263,
    ensures
        final(control).dispstat == (old(control).dispstat & 0x007F) | (line << 8u16) | ((line
            >> 1u16) & 0x80),
        final(control).ime == old(control).ime,
        final(control).ie == old(control).ie,
{
    control.dispstat = (control.dispstat & 0x007F) | (line << 8u16) | ((line >> 1u16) & 0x80);
}

} // verus!
