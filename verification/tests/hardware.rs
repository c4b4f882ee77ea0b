use nds_hal::dispcnt::{BackgroundControl, DisplayControlMain, DisplayControlSub};
use nds_hal::display::{
    brightness_control_value, power_off, power_on, rgb15, set_engine_lcd, set_vcount_trigger,
    GfxEngine, GfxPwr, MainEnginePos, PowerControl, GFX_PWR_MAIN_2D, GFX_PWR_SUB_2D,
};
use nds_hal::input::{buttons_from_raw, Buttons, BUTTON_A, BUTTON_B, BUTTON_PEN, BUTTON_X};
use nds_hal::interrupt::IrqControl;
use nds_hal::nocash::{print2, DebugPort};
use nds_hal::obj::{
    get_oam_addr, sprite_from_obj_data, sprite_obj_data, AffineSprite, NormalSprite, Sprite,
    OAM_BASE_MAIN, OAM_BASE_SUB,
};
use nds_hal::runtime::lib_init;
use nds_hal::allocator::ACSLAlloc;
use nds_hal::shared::SharedData;
use nds_hal::timers::profiler_ticks;
use nds_hal::vram;
use nds_hal::vram::VramBanks;

#[test]
fn rgb15_extracts_the_high_five_bits_of_each_channel() {
    assert_eq!(rgb15(0x000000), 0);
    assert_eq!(rgb15(0xFFFFFF), 0x7FFF);
    assert_eq!(rgb15(0xFF0000), 0x001F);
    assert_eq!(rgb15(0x00FF00), 0x03E0);
    assert_eq!(rgb15(0x0000FF), 0x7C00);
    assert_eq!(rgb15(0x080808), (1 << 0) | (1 << 5) | (1 << 10));
}

#[test]
fn brightness_modes_and_clamping() {
    assert_eq!(brightness_control_value(0), 1 << 14);
    assert_eq!(brightness_control_value(5), (1 << 14) | 5);
    assert_eq!(brightness_control_value(16), (1 << 14) | 16);
    assert_eq!(brightness_control_value(20), (1 << 14) | 16);
    assert_eq!(brightness_control_value(-5), (2 << 14) | 5);
    assert_eq!(brightness_control_value(-16), (2 << 14) | 16);
    assert_eq!(brightness_control_value(-100), (2 << 14) | 16);
}

#[test]
fn power_bits_accumulate_and_clear() {
    let mut p = PowerControl::new();
    power_on(&mut p, GfxPwr::all_2d());
    assert_eq!(p.powcnt1, GFX_PWR_MAIN_2D | GFX_PWR_SUB_2D);
    power_off(&mut p, GfxPwr::from_bits(GFX_PWR_MAIN_2D));
    assert_eq!(p.powcnt1, GFX_PWR_SUB_2D);
    set_engine_lcd(&mut p, MainEnginePos::TOP);
    assert_eq!(p.powcnt1, GFX_PWR_SUB_2D | 0x8000);
    set_engine_lcd(&mut p, MainEnginePos::BOTTOM);
    assert_eq!(p.powcnt1, GFX_PWR_SUB_2D);
}

#[test]
fn vcount_trigger_packs_the_line_number() {
    let mut control = IrqControl::new();
    control.dispstat = 0xFFFF;
    set_vcount_trigger(&mut control, 262);
    // 262 = 0x106: low eight bits to the high byte, ninth bit to bit 7;
    // bits 0 to 6 are preserved.
    assert_eq!(control.dispstat, 0x06FF);
    set_vcount_trigger(&mut control, 0);
    assert_eq!(control.dispstat, 0x007F);
}

#[test]
fn sprite_fields_pack_into_their_slots() {
    let s = NormalSprite::new()
        .with_y(7)
        .with_x(5)
        .with_tile(0x155)
        .with_priority(2)
        .with_palette(9)
        .with_h_flip(true);
    assert_eq!(s.y(), 7);
    assert_eq!(s.x(), 5);
    assert_eq!(s.tile(), 0x155);
    assert_eq!(s.priority(), 2);
    assert_eq!(s.palette(), 9);
    assert!(s.h_flip());
    assert!(!s.v_flip());
    assert!(!s.disable());

    let a = AffineSprite::new().with_y(1).with_x(300).with_affine_param(17).with_double_size(
        true,
    );
    assert_eq!(a.y(), 1);
    assert_eq!(a.x(), 300);
    assert_eq!(a.affine_param(), 17);
    assert!(a.double_size());
}

#[test]
fn disabled_sprite_round_trips_through_attribute_memory() {
    let sprite = Sprite::NormalSprite(NormalSprite::new().with_disable(true));
    let data = sprite_obj_data(sprite);
    // The layout flag (bit 8) is forced clear for a normal sprite.
    assert_eq!(data & 0x100, 0);
    assert_eq!(data, 0x200);
    let back = sprite_from_obj_data(data);
    assert_eq!(back, sprite);
}

#[test]
fn affine_sprites_carry_the_layout_flag() {
    let sprite = Sprite::AffineSprite(AffineSprite::new().with_x(33).with_tile(12));
    let data = sprite_obj_data(sprite);
    assert_eq!(data & 0x100, 0x100);
    match sprite_from_obj_data(data) {
        Sprite::AffineSprite(a) => {
            assert_eq!(a.x(), 33);
            assert_eq!(a.tile(), 12);
        },
        Sprite::NormalSprite(_) => panic!("layout flag lost"),
    }
}

#[test]
fn oam_entries_are_eight_bytes_apart() {
    assert_eq!(get_oam_addr(GfxEngine::MAIN, 0), OAM_BASE_MAIN);
    assert_eq!(get_oam_addr(GfxEngine::MAIN, 3), OAM_BASE_MAIN + 24);
    assert_eq!(get_oam_addr(GfxEngine::SUB, 127), OAM_BASE_SUB + 1016);
}

#[test]
fn vram_modes_pack_use_offset_and_enable() {
    assert_eq!(vram::A::LCDC.control_value(), 0x80);
    assert_eq!(vram::A::MAIN_BG_1.control_value(), 0x89);
    assert_eq!(vram::C::SUB_BG.control_value(), 0x84);
    assert_eq!(vram::D::SUB_OBJ.control_value(), 0x84);
    assert_eq!(vram::F::MAIN_OBJ_0_2.control_value(), 0x92);
    assert_eq!(vram::G::MAIN_BG_EX_PAL_2_to_3.control_value(), 0x8C);
    assert_eq!(vram::H::SUB_BG.control_value(), 0x81);
    assert_eq!(vram::I::SUB_OBJ_EX_PAL.control_value(), 0x83);
}

#[test]
fn mapping_a_bank_writes_only_its_register() {
    let mut banks = VramBanks::new();
    vram::map_vram_block_h(&mut banks, vram::H::SUB_BG);
    assert_eq!(banks.h, 0x81);
    assert_eq!(banks.a, 0);
    vram::map_vram_block_a(&mut banks, vram::A::MAIN_OBJ_1);
    assert_eq!(banks.a, 0x8A);
    assert_eq!(banks.h, 0x81);
    vram::map_vram_block_b(&mut banks, vram::B::TEXTURE_3);
    vram::map_vram_block_c(&mut banks, vram::C::ARM7_1);
    vram::map_vram_block_d(&mut banks, vram::D::LCDC);
    vram::map_vram_block_e(&mut banks, vram::E::MAIN_BG_EX_PAL_0_to_3);
    vram::map_vram_block_f(&mut banks, vram::F::TEXTURE_PAL_5);
    vram::map_vram_block_g(&mut banks, vram::G::MAIN_OBJ_EX_PAL);
    vram::map_vram_block_i(&mut banks, vram::I::SUB_BG);
    assert_eq!(
        (banks.b, banks.c, banks.d, banks.e, banks.f, banks.g, banks.i),
        (0x9B, 0x8A, 0x80, 0x84, 0x9B, 0x85, 0x81)
    );
}

#[test]
fn button_bitmap_inverts_and_packs_the_raw_registers() {
    // Everything released: the raw registers report all-ones for the used
    // bits.
    let all_released = buttons_from_raw(0x03FF, 0x007F);
    assert!(!all_released.contains(BUTTON_A));
    // A and X pressed: their raw bits read zero.
    let pressed = buttons_from_raw(0x03FF & !0x0001, 0x007F & !0x0001);
    assert!(pressed.contains(BUTTON_A));
    assert!(pressed.contains(BUTTON_X));
    assert!(!pressed.contains(BUTTON_B));
    assert!(!pressed.contains(BUTTON_PEN));
}

#[test]
fn shared_data_starts_empty() {
    let shared = SharedData::new();
    assert_eq!(shared.buttons, Buttons::empty());
}

#[test]
fn profiler_combines_the_cascaded_counters() {
    assert_eq!(profiler_ticks(0x1234, 0xABCD), 0xABCD_1234);
    assert_eq!(profiler_ticks(0, 0), 0);
    assert_eq!(profiler_ticks(0xFFFF, 0xFFFF), 0xFFFF_FFFF);
}

#[test]
fn debug_port_records_each_byte() {
    let mut port = DebugPort::new();
    print2(&mut port, "Hi!\n");
    assert_eq!(port.writes().clone(), vec![72, 105, 33, 10]);
    print2(&mut port, "x");
    assert_eq!(port.writes().clone(), vec![72, 105, 33, 10, 120]);
}

#[test]
fn startup_leaves_a_usable_system() {
    let mut power = PowerControl::new();
    let mut irq = IrqControl::new();
    let mut heap = ACSLAlloc::new();
    lib_init(&mut power, &mut irq, &mut heap, 0x1000, 256);
    assert_eq!(power.powcnt1, 0x20E);
    assert!(irq.ime);
    assert_eq!(irq.ie, 0);
    assert_eq!(heap.free_extents(), vec![(0x1000, 0x1100)]);
    assert_eq!(heap.allocate(40, 4), Some(0x1000));
}

#[test]
fn display_control_fields_pack_into_their_slots() {
    let c = DisplayControlSub::new()
        .with_bg_mode(0)
        .with_display_bg(0, true)
        .with_display_mode(1);
    assert_eq!(c.bits(), 0x0001_0100);
    assert_eq!(c.bg_mode(), 0);
    assert!(c.display_bg(0));
    assert!(!c.display_bg(1));
    assert_eq!(c.display_mode(), 1);

    let m = DisplayControlMain::new().with_bg_mode(5).with_bg0_3d(true).with_display_obj(true);
    assert_eq!(m.bits(), 0x1000 | 0x8 | 5);
    assert_eq!(m.bg_mode(), 5);
    assert!(m.bg0_3d());
    assert!(m.display_obj());
    assert!(!m.forced_blank());

    let sub = DisplayControlSub::new().with_bg_ext_pal_enabled(true).with_display_win(1, true);
    assert_eq!(sub.bits(), 0x4000_0000 | (1 << 14));
    assert!(sub.bg_ext_pal_enabled());
    assert!(sub.display_win(1));
    assert!(!sub.display_win(0));
}

#[test]
fn background_control_fields_pack_into_their_slots() {
    let b = BackgroundControl::new()
        .with_priority(2)
        .with_tiledata_base(3)
        .with_tilemap_base(4)
        .with_screen_size(1);
    assert_eq!(b.bits(), 2 | (3 << 2) | (4 << 8) | (1 << 14));
    assert_eq!(b.priority(), 2);
    assert_eq!(b.tiledata_base(), 3);
    assert_eq!(b.tilemap_base(), 4);
    assert_eq!(b.screen_size(), 1);
    assert!(!b.mosaic_enabled());
    assert_eq!(b.palette_setting(), 0);
    let round = BackgroundControl::from_bits(b.bits());
    assert_eq!(round, b);
}
