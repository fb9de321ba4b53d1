use gb_emu::ppu::{apply_palette, shade_to_rgb, Ppu, PpuMode};

fn fresh() -> Ppu {
    Ppu::new(false)
}

#[test]
fn new_ppu_has_post_boot_registers() {
    let p = fresh();
    assert_eq!(p.regs.lcdc, 0x91);
    assert_eq!(p.regs.bgp, 0xFC);
    assert_eq!(p.mode, PpuMode::OamScan);
    assert_eq!(p.frame_buffer.len(), 160 * 144);
    assert_eq!(p.vram.len(), 0x2000);
    assert_eq!(p.oam.len(), 0xA0);
}

#[test]
fn register_write_reads_back() {
    let mut p = fresh();
    p.write_reg(0xFF42, 0x12);
    assert_eq!(p.read_reg(0xFF42), 0x12);
    p.write_reg(0xFF4B, 0x07);
    assert_eq!(p.read_reg(0xFF4B), 0x07);
    p.write_reg(0xFF44, 0x55);
    assert_eq!(p.read_reg(0xFF44), 0x00);
    assert_eq!(p.read_reg(0xFF46), 0xFF);
}

#[test]
fn stat_keeps_mode_and_coincidence_bits() {
    let mut p = fresh();
    p.write_reg(0xFF41, 0xFF);
    // LCD on, OAM scan (mode 2), LY == LYC (bit 2), bits 3-6 written, bit 7 set.
    assert_eq!(p.read_reg(0xFF41), 0xFE);
    p.write_reg(0xFF41, 0x00);
    assert_eq!(p.read_reg(0xFF41), 0x86);
    p.write_reg(0xFF40, 0x00);
    assert_eq!(p.read_reg(0xFF41), 0x80);
}

#[test]
fn palette_and_shades() {
    assert_eq!(apply_palette(0, 0xE4), 0);
    assert_eq!(apply_palette(1, 0xE4), 1);
    assert_eq!(apply_palette(2, 0xE4), 2);
    assert_eq!(apply_palette(3, 0xE4), 3);
    assert_eq!(apply_palette(1, 0xFC), 3);
    assert_eq!(shade_to_rgb(0), 0xFFFFFFFF);
    assert_eq!(shade_to_rgb(1), 0xFFAAAAAA);
    assert_eq!(shade_to_rgb(2), 0xFF555555);
    assert_eq!(shade_to_rgb(3), 0xFF000000);
}

#[test]
fn background_line_uses_tile_map_and_palette() {
    let mut p = fresh();
    // Tile 0, row 0: low plane all set -> colour 1 everywhere on line 0.
    p.write_vram(0x8000, 0xFF);
    p.write_vram(0x8001, 0x00);
    p.render_background_line();
    for x in 0..160 {
        assert_eq!(p.bg_color_ids[x], 1);
        assert_eq!(p.frame_buffer[x], 0xFF000000);
    }
    assert_eq!(p.frame_buffer[160], 0);
}

#[test]
fn background_scroll_picks_the_shifted_pixel() {
    let mut p = fresh();
    // Tile 0 row 0: only the leftmost pixel has colour 3.
    p.write_vram(0x8000, 0x80);
    p.write_vram(0x8001, 0x80);
    p.regs.bgp = 0xE4;
    p.regs.scx = 1;
    p.render_background_line();
    // Screen x 7 shows map x 8 (tile 1, which is tile 0 again), pixel 0.
    assert_eq!(p.bg_color_ids[7], 3);
    assert_eq!(p.bg_color_ids[0], 0);
    assert_eq!(p.frame_buffer[7], 0xFF000000);
}

#[test]
fn window_covers_from_wx_minus_7() {
    let mut p = fresh();
    p.write_vram(0x8000, 0xFF);
    p.write_vram(0x8001, 0xFF);
    p.regs.wx = 7 + 100;
    p.regs.wy = 0;
    p.render_window_line();
    assert_eq!(p.bg_color_ids[99], 0);
    assert_eq!(p.bg_color_ids[100], 3);
    assert_eq!(p.frame_buffer[100], 0xFF000000);
    assert_eq!(p.frame_buffer[99], 0);
}

#[test]
fn sprite_priority_smaller_oam_index_wins_on_equal_x() {
    let mut p = fresh();
    p.regs.obp0 = 0xE4;
    // Tile 1 row 0: leftmost pixel colour 1; tile 2 row 0: leftmost pixel colour 2.
    p.write_vram(0x8010, 0x80);
    p.write_vram(0x8021, 0x80);
    // Sprite 0 at screen (0, 0) with tile 1, sprite 1 at the same place with tile 2.
    for (i, tile) in [(0u16, 1u8), (1, 2)] {
        p.write_oam(0xFE00 + i * 4, 16);
        p.write_oam(0xFE00 + i * 4 + 1, 8);
        p.write_oam(0xFE00 + i * 4 + 2, tile);
        p.write_oam(0xFE00 + i * 4 + 3, 0);
    }
    assert!(p.sprites_draw_any());
    p.render_sprites_line();
    assert_eq!(p.frame_buffer[0], 0xFFAAAAAA);
    assert_eq!(p.frame_buffer[1], 0);
}

#[test]
fn sprite_with_smaller_x_wins() {
    let mut p = fresh();
    p.regs.obp0 = 0xE4;
    p.write_vram(0x8010, 0xFF); // tile 1: colour 1 across the row
    p.write_vram(0x8021, 0xFF); // tile 2: colour 2 across the row
    // Sprite 0 at x 4 with tile 2, sprite 1 at x 2 with tile 1.
    p.write_oam(0xFE00, 16);
    p.write_oam(0xFE01, 8 + 4);
    p.write_oam(0xFE02, 2);
    p.write_oam(0xFE03, 0);
    p.write_oam(0xFE04, 16);
    p.write_oam(0xFE05, 8 + 2);
    p.write_oam(0xFE06, 1);
    p.write_oam(0xFE07, 0);
    p.render_sprites_line();
    assert_eq!(p.frame_buffer[1], 0);
    assert_eq!(p.frame_buffer[2], 0xFFAAAAAA);
    assert_eq!(p.frame_buffer[5], 0xFFAAAAAA);
    assert_eq!(p.frame_buffer[9], 0xFFAAAAAA);
    assert_eq!(p.frame_buffer[10], 0xFF555555);
    assert_eq!(p.frame_buffer[11], 0xFF555555);
    assert_eq!(p.frame_buffer[12], 0);
}

#[test]
fn sprite_behind_background_yields_to_non_zero_colour() {
    let mut p = fresh();
    p.regs.obp0 = 0xE4;
    p.write_vram(0x8010, 0xFF);
    p.write_oam(0xFE00, 16);
    p.write_oam(0xFE01, 8);
    p.write_oam(0xFE02, 1);
    p.write_oam(0xFE03, 0x80);
    p.bg_color_ids[3] = 2;
    p.render_sprites_line();
    assert_eq!(p.frame_buffer[2], 0xFFAAAAAA);
    assert_eq!(p.frame_buffer[3], 0);
}

#[test]
fn at_most_ten_sprites_per_line() {
    let mut p = fresh();
    p.regs.obp0 = 0xE4;
    p.write_vram(0x8010, 0x80);
    // Twelve sprites on line 0, each 8 pixels apart.
    for i in 0..12u16 {
        p.write_oam(0xFE00 + i * 4, 16);
        p.write_oam(0xFE00 + i * 4 + 1, (8 + i * 8) as u8);
        p.write_oam(0xFE00 + i * 4 + 2, 1);
    }
    p.render_sprites_line();
    assert_eq!(p.frame_buffer[72], 0xFFAAAAAA);
    assert_eq!(p.frame_buffer[80], 0);
    assert_eq!(p.frame_buffer[88], 0);
}

#[test]
fn lcd_off_step_resets_line_and_mode() {
    let mut p = fresh();
    p.regs.lcdc = 0x00;
    p.regs.ly = 40;
    p.dot_counter = 100;
    let e = p.step(4);
    assert!(!e.vblank && !e.stat);
    assert_eq!(p.regs.ly, 0);
    assert_eq!(p.dot_counter, 0);
    assert_eq!(p.mode, PpuMode::HBlank);
    assert!(!p.was_on_last_step);
}

#[test]
fn line_144_starts_vblank() {
    let mut p = fresh();
    p.regs.lcdc = 0x80;
    p.was_on_last_step = true;
    p.mode = PpuMode::HBlank;
    p.regs.ly = 143;
    p.dot_counter = 200;
    p.regs.stat = 0x10;
    assert!(p.can_step(4));
    let e = p.step(4);
    assert!(e.vblank);
    assert!(e.stat);
    assert!(p.ready);
    assert_eq!(p.regs.ly, 144);
    assert_eq!(p.mode, PpuMode::VBlank);
    assert_eq!(p.dot_counter, 0);
}

#[test]
fn oam_scan_then_drawing_then_hblank() {
    let mut p = fresh();
    p.regs.lcdc = 0x80;
    p.was_on_last_step = true;
    p.mode = PpuMode::OamScan;
    p.dot_counter = 76;
    p.step(8);
    assert_eq!(p.mode, PpuMode::Drawing);
    assert_eq!(p.dot_counter, 4);
    p.step(168);
    assert_eq!(p.mode, PpuMode::HBlank);
    assert_eq!(p.dot_counter, 0);
}

#[test]
fn vblank_wraps_to_line_zero() {
    let mut p = fresh();
    p.regs.lcdc = 0x80;
    p.was_on_last_step = true;
    p.mode = PpuMode::VBlank;
    p.regs.ly = 153;
    p.dot_counter = 452;
    p.step(4);
    assert_eq!(p.regs.ly, 0);
    assert_eq!(p.mode, PpuMode::OamScan);
    assert_eq!(p.dot_counter, 0);
}

#[test]
fn cannot_step_past_line_255() {
    let mut p = fresh();
    p.regs.lcdc = 0x80;
    p.was_on_last_step = true;
    p.mode = PpuMode::VBlank;
    p.regs.ly = 255;
    p.dot_counter = 456;
    assert!(!p.can_step(0));
    p.regs.ly = 200;
    assert!(p.can_step(0));
    p.dot_counter = 0xFFFF;
    assert!(!p.can_step(1));
}

#[test]
fn lcd_switch_on_starts_after_80_dots() {
    let mut p = fresh();
    p.regs.lcdc = 0x80;
    p.was_on_last_step = false;
    p.mode = PpuMode::VBlank;
    p.dot_counter = 300;
    p.step(40);
    assert_eq!(p.mode, PpuMode::HBlank);
    assert!(p.just_enabled);
    assert_eq!(p.dot_counter, 40);
    p.step(40);
    assert_eq!(p.mode, PpuMode::Drawing);
    assert!(!p.just_enabled);
    assert_eq!(p.dot_counter, 0);
}

#[test]
fn render_below_screen_only_when_nothing_draws() {
    let mut p = fresh();
    p.regs.lcdc = 0x82;
    p.regs.ly = 150;
    assert!(p.can_render());
    p.write_vram(0x8000, 0xFF);
    p.regs.lcdc = 0x83;
    assert!(!p.can_render());
}

#[test]
fn ly_stays_within_a_frame_and_vblank_once_per_frame() {
    let mut p = fresh();
    p.regs.lcdc = 0x80;
    let mut vblanks = 0;
    let mut max_ly = 0;
    // Three frames of 70224 dots, in steps of 4 to 80 dots.
    let mut dots: u32 = 0;
    let mut k: u32 = 0;
    while dots < 3 * 70224 {
        let c = (4 + (k % 20) * 4) as u8;
        let before = p.regs.ly;
        assert!(p.can_step(c));
        let e = p.step(c);
        if e.vblank {
            vblanks += 1;
            assert_eq!(before, 143);
            assert_eq!(p.regs.ly, 144);
            assert!(p.ready);
            p.ready = false;
        }
        max_ly = max_ly.max(p.regs.ly);
        dots += c as u32;
        k += 1;
    }
    assert!(max_ly <= 153);
    assert_eq!(max_ly, 153);
    assert_eq!(vblanks, 3);
}
