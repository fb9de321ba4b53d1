use vstd::prelude::*;

verus! {

/// The PPU's position within a scanline or frame.
#[derive(Debug, Clone, Copy, PartialEq, Eq, Structural)]
pub enum PpuMode {
    OamScan,
    Drawing,
    HBlank,
    VBlank,
}

/// One OAM entry, with the screen position already offset by (8, 16).
#[derive(Debug, Clone, Copy, PartialEq, Eq, Structural)]
pub struct SpriteAttr {
    pub y: u8,
    pub x: u8,
    pub tile: u8,
    pub flags: u8,
}

/// The LCD registers.
#[derive(Debug, Clone, Copy, PartialEq, Eq, Structural)]
pub struct PpuRegs {
    pub lcdc: u8,
    pub stat: u8,
    pub scy: u8,
    pub scx: u8,
    pub ly: u8,
    pub lyc: u8,
    pub bgp: u8,
    pub obp0: u8,
    pub obp1: u8,
    pub wy: u8,
    pub wx: u8,
}

impl PpuRegs {
    pub open spec fn spec_post_boot() -> PpuRegs {
        PpuRegs {
            lcdc: 0x91,
            stat: 0x85,
            scy: 0x00,
            scx: 0x00,
            ly: 0x00,
            lyc: 0x00,
            bgp: 0xFC,
            obp0: 0xFF,
            obp1: 0xFF,
            wy: 0x00,
            wx: 0x00,
        }
    }

    /// The registers after the boot ROM (the same for both models).
    pub fn post_boot(cgb: bool) -> (r: Self)
        ensures
            r == PpuRegs::spec_post_boot(),
    {
        Self {
            lcdc: 0x91,
            stat: 0x85,
            scy: 0x00,
            scx: 0x00,
            ly: 0x00,
            lyc: 0x00,
            bgp: 0xFC,
            obp0: 0xFF,
            obp1: 0xFF,
            wy: 0x00,
            wx: 0x00,
        }
    }
}

/// The interrupts that a PPU step raises.
#[derive(Debug, Clone, Copy, PartialEq, Eq, Structural)]
pub struct PpuEvents {
    pub vblank: bool,
    pub stat: bool,
}

impl Default for PpuEvents {
    fn default() -> (e: Self)
        ensures
            e == (PpuEvents { vblank: false, stat: false }),
    {
        PpuEvents { vblank: false, stat: false }
    }
}

/// The pixel processing unit: LCD registers, its own video memory and OAM,
/// and the frame being drawn.
pub struct Ppu {
    pub frame_buffer: Vec<u32>,
    pub ready: bool,
    pub dot_counter: u16,
    pub mode: PpuMode,
    pub bg_color_ids: Vec<u8>,
    pub just_enabled: bool,
    pub was_on_last_step: bool,
    pub regs: PpuRegs,
    pub vram: Vec<u8>,
    pub oam: Vec<u8>,
    pub stat_line: bool,
}

/// The state of the PPU as values.
pub struct PpuView {
    pub frame_buffer: Seq<u32>,
    pub ready: bool,
    pub dot_counter: u16,
    pub mode: PpuMode,
    pub bg_color_ids: Seq<u8>,
    pub just_enabled: bool,
    pub was_on_last_step: bool,
    pub regs: PpuRegs,
    pub vram: Seq<u8>,
    pub oam: Seq<u8>,
    pub stat_line: bool,
}

impl View for Ppu {
    type V = PpuView;

    open spec fn view(&self) -> PpuView {
        PpuView {
            frame_buffer: self.frame_buffer@,
            ready: self.ready,
            dot_counter: self.dot_counter,
            mode: self.mode,
            bg_color_ids: self.bg_color_ids@,
            just_enabled: self.just_enabled,
            was_on_last_step: self.was_on_last_step,
            regs: self.regs,
            vram: self.vram@,
            oam: self.oam@,
            stat_line: self.stat_line,
        }
    }
}

/// The shade (0-3) that a palette register gives a colour number (0-3).
pub open spec fn spec_apply_palette(color_id: u8, palette: u8) -> u8 {
    (palette >> (color_id * 2) as u8) & 0x03
}

pub fn apply_palette(color_id: u8, palette: u8) -> (shade: u8)
    requires
        color_id < 4,
    ensures
        shade == spec_apply_palette(color_id, palette),
        shade < 4,
{
    let r = (palette >> (color_id * 2)) & 0x03;
    assert(r < 4) by (bit_vector) requires r == (palette >> (color_id * 2) as u8) & 0x03;
    r
}

/// The ARGB colour of a shade: white, light grey, dark grey, black.
pub open spec fn spec_shade_to_rgb(shade: u8) -> u32 {
    if shade == 0 {
        0xFFFFFFFF
    } else if shade == 1 {
        0xFFAAAAAA
    } else if shade == 2 {
        0xFF555555
    } else {
        0xFF000000
    }
}

pub fn shade_to_rgb(shade: u8) -> (rgb: u32)
    requires
        shade < 4,
    ensures
        rgb == spec_shade_to_rgb(shade),
{
    match shade {
        0 => 0xFFFFFFFF,
        1 => 0xFFAAAAAA,
        2 => 0xFF555555,
        _ => 0xFF000000,
    }
}

/// The two-bit mode number that STAT reports.
pub open spec fn spec_mode_bits(mode: PpuMode) -> u8 {
    match mode {
        PpuMode::HBlank => 0,
        PpuMode::VBlank => 1,
        PpuMode::OamScan => 2,
        PpuMode::Drawing => 3,
    }
}

impl PpuView {
    /// The PPU after the boot ROM: LCD registers as left by it, blank frame
    /// and memories, in OAM scan at dot 0.
    pub open spec fn initial() -> PpuView {
        PpuView {
            frame_buffer: Seq::new(160 * 144, |i: int| 0u32),
            ready: false,
            dot_counter: 0,
            mode: PpuMode::OamScan,
            bg_color_ids: Seq::new(160, |i: int| 0u8),
            just_enabled: false,
            was_on_last_step: false,
            regs: PpuRegs::spec_post_boot(),
            vram: Seq::new(0x2000, |i: int| 0u8),
            oam: Seq::new(0xA0, |i: int| 0u8),
            stat_line: false,
        }
    }

    pub open spec fn wf(&self) -> bool {
        &&& self.frame_buffer.len() == 160 * 144
        &&& self.bg_color_ids.len() == 160
        &&& self.vram.len() == 0x2000
        &&& self.oam.len() == 0xA0
    }

    /// A read of an LCD register; STAT reports the mode and the LY=LYC
    /// coincidence only while the LCD is on; other addresses read 0xFF.
    pub open spec fn read_reg(&self, addr: u16) -> u8 {
        let r = self.regs;
        if addr == 0xFF40 {
            r.lcdc
        } else if addr == 0xFF41 {
            let on = r.lcdc & 0x80 != 0;
            let mode: u8 = if on { spec_mode_bits(self.mode) } else { 0 };
            let coin: u8 = if on && r.ly == r.lyc { 1 } else { 0 };
            0x80 | (r.stat & 0x78) | (coin << 2u8) | mode
        } else if addr == 0xFF42 {
            r.scy
        } else if addr == 0xFF43 {
            r.scx
        } else if addr == 0xFF44 {
            r.ly
        } else if addr == 0xFF45 {
            r.lyc
        } else if addr == 0xFF47 {
            r.bgp
        } else if addr == 0xFF48 {
            r.obp0
        } else if addr == 0xFF49 {
            r.obp1
        } else if addr == 0xFF4A {
            r.wy
        } else if addr == 0xFF4B {
            r.wx
        } else {
            0xFF
        }
    }

    /// The registers after a write; only bits 3-6 of STAT are writable, LY
    /// is read-only, and other addresses are ignored.
    pub open spec fn write_reg(&self, addr: u16, v: u8) -> PpuRegs {
        let r = self.regs;
        if addr == 0xFF40 {
            PpuRegs { lcdc: v, ..r }
        } else if addr == 0xFF41 {
            PpuRegs { stat: (r.stat & !0x78u8) | (v & 0x78), ..r }
        } else if addr == 0xFF42 {
            PpuRegs { scy: v, ..r }
        } else if addr == 0xFF43 {
            PpuRegs { scx: v, ..r }
        } else if addr == 0xFF45 {
            PpuRegs { lyc: v, ..r }
        } else if addr == 0xFF47 {
            PpuRegs { bgp: v, ..r }
        } else if addr == 0xFF48 {
            PpuRegs { obp0: v, ..r }
        } else if addr == 0xFF49 {
            PpuRegs { obp1: v, ..r }
        } else if addr == 0xFF4A {
            PpuRegs { wy: v, ..r }
        } else if addr == 0xFF4B {
            PpuRegs { wx: v, ..r }
        } else {
            r
        }
    }

    /// The STAT interrupt line: the LY=LYC source or the source of the
    /// current mode, each when enabled in STAT.
    pub open spec fn stat_line_level(&self) -> bool {
        let stat = self.regs.stat;
        ||| self.regs.ly == self.regs.lyc && stat & 0x40 != 0
        ||| self.mode == PpuMode::HBlank && stat & 0x08 != 0
        ||| self.mode == PpuMode::VBlank && stat & 0x10 != 0
        ||| self.mode == PpuMode::OamScan && stat & 0x20 != 0
    }
}

impl Ppu {
    pub fn read_reg(&self, addr: u16) -> (v: u8)
        ensures
            v == self@.read_reg(addr),
    {
        match addr {
            0xFF40 => self.regs.lcdc,
            0xFF41 => {
                let on = self.regs.lcdc & 0x80 != 0;
                let (mode, coin): (u8, u8) = if on {
                    (self.mode_bits(), if self.regs.ly == self.regs.lyc { 1 } else { 0 })
                } else {
                    (0, 0)
                };
                0x80 | (self.regs.stat & 0x78) | (coin << 2) | mode
            },
            0xFF42 => self.regs.scy,
            0xFF43 => self.regs.scx,
            0xFF44 => self.regs.ly,
            0xFF45 => self.regs.lyc,
            0xFF47 => self.regs.bgp,
            0xFF48 => self.regs.obp0,
            0xFF49 => self.regs.obp1,
            0xFF4A => self.regs.wy,
            0xFF4B => self.regs.wx,
            _ => 0xFF,
        }
    }

    pub fn write_reg(&mut self, addr: u16, v: u8)
        ensures
            final(self)@ == (PpuView { regs: old(self)@.write_reg(addr, v), ..old(self)@ }),
    {
        match addr {
            0xFF40 => self.regs.lcdc = v,
            0xFF41 => self.regs.stat = (self.regs.stat & !0x78) | (v & 0x78),
            0xFF42 => self.regs.scy = v,
            0xFF43 => self.regs.scx = v,
            0xFF44 => {},
            0xFF45 => self.regs.lyc = v,
            0xFF47 => self.regs.bgp = v,
            0xFF48 => self.regs.obp0 = v,
            0xFF49 => self.regs.obp1 = v,
            0xFF4A => self.regs.wy = v,
            0xFF4B => self.regs.wx = v,
            _ => {},
        }
    }

    pub fn read_vram(&self, addr: u16) -> (v: u8)
        requires
            self@.wf(),
            0x8000 <= addr <= 0x9FFF,
        ensures
            v == self@.vram[addr - 0x8000],
    {
        self.vram[(addr - 0x8000) as usize]
    }

    pub fn write_vram(&mut self, addr: u16, value: u8)
        requires
            old(self)@.wf(),
            0x8000 <= addr <= 0x9FFF,
        ensures
            final(self)@ == (PpuView { vram: old(self)@.vram.update(addr - 0x8000, value), ..old(self)@ }),
    {
        self.vram.set((addr - 0x8000) as usize, value);
    }

    pub fn read_oam(&self, addr: u16) -> (v: u8)
        requires
            self@.wf(),
            0xFE00 <= addr <= 0xFE9F,
        ensures
            v == self@.oam[addr - 0xFE00],
    {
        self.oam[(addr - 0xFE00) as usize]
    }

    pub fn write_oam(&mut self, addr: u16, value: u8)
        requires
            old(self)@.wf(),
            0xFE00 <= addr <= 0xFE9F,
        ensures
            final(self)@ == (PpuView { oam: old(self)@.oam.update(addr - 0xFE00, value), ..old(self)@ }),
    {
        self.oam.set((addr - 0xFE00) as usize, value);
    }

    /// The PPU after the boot ROM: LCD registers as left by it, blank
    /// frame and memories.
    pub fn new(cgb: bool) -> (p: Self)
        ensures
            p@ == PpuView::initial(),
            p@.wf(),
    {
        let frame_buffer = vec![0u32; 160 * 144];
        let bg_color_ids = vec![0u8; 160];
        let vram = vec![0u8; 0x2000];
        let oam = vec![0u8; 0xA0];
        assert(frame_buffer@ =~= Seq::new(160 * 144, |i: int| 0u32));
        assert(bg_color_ids@ =~= Seq::new(160, |i: int| 0u8));
        assert(vram@ =~= Seq::new(0x2000, |i: int| 0u8));
        assert(oam@ =~= Seq::new(0xA0, |i: int| 0u8));
        Self {
            frame_buffer,
            dot_counter: 0,
            ready: false,
            mode: PpuMode::OamScan,
            bg_color_ids,
            just_enabled: false,
            was_on_last_step: false,
            regs: PpuRegs::post_boot(cgb),
            vram,
            oam,
            stat_line: false,
        }
    }

    /// Updates the STAT interrupt line and reports a rising edge.
    pub fn update_stat_line(&mut self) -> (rising: bool)
        ensures
            rising == (old(self)@.stat_line_level() && !old(self).stat_line),
            final(self)@ == (PpuView { stat_line: old(self)@.stat_line_level(), ..old(self)@ }),
    {
        let stat = self.regs.stat;
        let coincidence = self.regs.ly == self.regs.lyc;

        let line = (coincidence && stat & 0x40 != 0)
            || (matches!(self.mode, PpuMode::HBlank) && stat & 0x08 != 0)
            || (matches!(self.mode, PpuMode::VBlank) && stat & 0x10 != 0)
            || (matches!(self.mode, PpuMode::OamScan) && stat & 0x20 != 0);

        let rising = line && !self.stat_line;
        self.stat_line = line;
        rising
    }

    /// As `update_stat_line`, with only the LY=LYC source.
    pub fn update_stat_line_suppressed(&mut self) -> (rising: bool)
        ensures
            ({
                let line = old(self).regs.ly == old(self).regs.lyc && old(self).regs.stat & 0x40 != 0;
                &&& rising == (line && !old(self).stat_line)
                &&& final(self)@ == (PpuView { stat_line: line, ..old(self)@ })
            }),
    {
        let coincidence = self.regs.ly == self.regs.lyc;
        let line = coincidence && self.regs.stat & 0x40 != 0;
        let rising = line && !self.stat_line;
        self.stat_line = line;
        rising
    }

    pub fn mode_bits(&self) -> (b: u8)
        ensures
            b == spec_mode_bits(self.mode),
    {
        match self.mode {
            PpuMode::HBlank => 0,
            PpuMode::VBlank => 1,
            PpuMode::OamScan => 2,
            PpuMode::Drawing => 3,
        }
    }
}

} // verus!

verus! {

/// The signed value of a tile number in 0x8800 addressing.
pub open spec fn signed_tile(t: u8) -> int {
    if t < 128 { t as int } else { t as int - 256 }
}

/// The address of a tile's data: unsigned from 0x8000, or signed from 0x9000.
pub open spec fn tile_data_addr(tile_index: u8, signed: bool) -> int {
    if signed {
        0x9000 + signed_tile(tile_index) * 16
    } else {
        0x8000 + tile_index as int * 16
    }
}

/// The colour number (0-3) of bit `bit` of a 2bpp tile row (low plane, high plane).
pub open spec fn row_color(lo: u8, hi: u8, bit: u8) -> u8 {
    (((hi >> bit) & 1) << 1u8) | ((lo >> bit) & 1)
}

/// The colour number of the pixel `bit` (7 = leftmost) of the tile row at `row_addr`.
pub open spec fn tile_pixel(vram: Seq<u8>, row_addr: int, bit: u8) -> u8 {
    row_color(vram[row_addr - 0x8000], vram[row_addr + 1 - 0x8000], bit)
}

/// The background colour number at screen column `sx` of the current line,
/// from the scroll registers, the tile map and the tile data chosen by LCDC.
pub open spec fn bg_color(p: PpuView, sx: int) -> u8 {
    let lcdc = p.regs.lcdc;
    let base: int = if lcdc & 0x08 != 0 { 0x9C00 } else { 0x9800 };
    let signed = lcdc & 0x10 == 0;
    let y = (p.regs.ly + p.regs.scy) % 256;
    let x = (sx + p.regs.scx) % 256;
    let tile_index = p.vram[base + (y / 8) * 32 + x / 8 - 0x8000];
    tile_pixel(p.vram, tile_data_addr(tile_index, signed) + (y % 8) * 2, (7 - x % 8) as u8)
}

/// The colour for colour number `c` through palette register `palette`.
pub open spec fn pixel_rgb(c: u8, palette: u8) -> u32 {
    spec_shade_to_rgb(spec_apply_palette(c, palette))
}

/// Whether frame-buffer cell `i` lies on line `ly`.
pub open spec fn on_line(i: int, ly: u8) -> bool {
    ly as int * 160 <= i < ly as int * 160 + 160
}

impl PpuView {
    /// The PPU after drawing the background of the current line.
    pub open spec fn render_background(&self) -> PpuView {
        let ly = self.regs.ly;
        PpuView {
            frame_buffer: Seq::new(self.frame_buffer.len(), |i: int|
                if on_line(i, ly) {
                    pixel_rgb(bg_color(*self, i - ly * 160), self.regs.bgp)
                } else {
                    self.frame_buffer[i]
                }),
            bg_color_ids: Seq::new(160, |x: int| bg_color(*self, x)),
            ..*self
        }
    }
}

/// Facts on signed tile addressing and 2bpp colour numbers.
proof fn lemma_tile_addr(t: u8)
    ensures
        ((0x9000u16 as i16) + (t as i8 as i16) * 16) as u16 == tile_data_addr(t, true),
        0x8800 <= tile_data_addr(t, true) <= 0x97F0,
        0x8000 <= tile_data_addr(t, false) <= 0x8FF0,
{
    assert(t < 128 ==> ((0x9000u16 as i16) + (t as i8 as i16) * 16) as u16 == 0x9000 + (t as u16) * 16) by (bit_vector);
    assert(t >= 128 ==> ((0x9000u16 as i16) + (t as i8 as i16) * 16) as u16 == 0x8000 + (t as u16) * 16) by (bit_vector);
}

proof fn lemma_row_color(lo: u8, hi: u8, bit: u8)
    requires
        bit < 8,
    ensures
        row_color(lo, hi, bit) < 4,
{
    assert(bit < 8 ==> (((hi >> bit) & 1) << 1u8) | ((lo >> bit) & 1) < 4) by (bit_vector);
}

impl Ppu {
    /// The colour number of the tile pixel at (`x`, `y`) of the 256x256 map
    /// at `tile_map_base`, with the tile data addressing chosen by LCDC.
    fn map_color_id(&self, tile_map_base: u16, signed_tile_addressing: bool, x: u8, y: u8) -> (c: u8)
        requires
            self@.wf(),
            tile_map_base == 0x9800 || tile_map_base == 0x9C00,
            (y as int) < 256,
        ensures
            c < 4,
            ({
                let tile_index = self@.vram[tile_map_base + (y / 8) * 32 + x / 8 - 0x8000];
                c == tile_pixel(self@.vram, tile_data_addr(tile_index, signed_tile_addressing) + (y % 8) * 2,
                    (7 - x % 8) as u8)
            }),
    {
        let tile_row = (y / 8) as u16;
        let pixel_row_in_tile = y % 8;
        let tile_col = (x / 8) as u16;
        let pixel_col_in_tile = x % 8;

        let tile_map_addr = tile_map_base + tile_row * 32 + tile_col;
        let tile_index = self.read_vram(tile_map_addr);
        proof { lemma_tile_addr(tile_index); }

        let tile_data_addr = if signed_tile_addressing {
            let signed_index = tile_index as i8 as i16;
            assert(0x9000u16 as i16 == -28672i16) by (bit_vector);
            assert(-128 <= signed_index <= 127) by (bit_vector) requires signed_index == tile_index as i8 as i16;
            ((0x9000u16 as i16) + signed_index * 16) as u16
        } else {
            0x8000 + (tile_index as u16) * 16
        };

        let row_addr = tile_data_addr + (pixel_row_in_tile as u16) * 2;
        let low_byte = self.read_vram(row_addr);
        let high_byte = self.read_vram(row_addr + 1);

        let bit = 7 - pixel_col_in_tile;
        proof { lemma_row_color(low_byte, high_byte, bit); }
        ((high_byte >> bit) & 1) << 1 | ((low_byte >> bit) & 1)
    }

    /// Draws the background of the current line and records its colour numbers.
    #[verifier::spinoff_prover]
    pub fn render_background_line(&mut self)
        requires
            old(self)@.wf(),
            old(self).regs.ly < 144,
        ensures
            final(self)@ == old(self)@.render_background(),
    {
        let lcdc = self.regs.lcdc;
        let scy = self.regs.scy;
        let scx = self.regs.scx;
        let bgp = self.regs.bgp;

        let tile_map_base: u16 = if lcdc & 0x08 != 0 { 0x9C00 } else { 0x9800 };
        let signed_tile_addressing = lcdc & 0x10 == 0;

        let y = self.regs.ly.wrapping_add(scy);
        let ghost p0 = self@;

        let mut screen_x: u8 = 0;
        while screen_x < 160
            invariant
                p0 == old(self)@,
                p0.wf(),
                p0.regs.ly < 144,
                lcdc == p0.regs.lcdc,
                scx == p0.regs.scx,
                bgp == p0.regs.bgp,
                tile_map_base == (if lcdc & 0x08 != 0 { 0x9C00int } else { 0x9800int }),
                signed_tile_addressing == (lcdc & 0x10 == 0),
                y == (p0.regs.ly + p0.regs.scy) % 256,
                screen_x <= 160,
                self@ == (PpuView { frame_buffer: self@.frame_buffer, bg_color_ids: self@.bg_color_ids, ..p0 }),
                self@.frame_buffer.len() == 160 * 144,
                self@.bg_color_ids.len() == 160,
                forall|i: int| 0 <= i < 160 * 144 ==> #[trigger] self@.frame_buffer[i] == if on_line(i, p0.regs.ly) && i - p0.regs.ly * 160 < screen_x {
                    pixel_rgb(bg_color(p0, i - p0.regs.ly * 160), bgp)
                } else {
                    p0.frame_buffer[i]
                },
                forall|x: int| 0 <= x < 160 ==> #[trigger] self@.bg_color_ids[x] == if x < screen_x { bg_color(p0, x) } else { p0.bg_color_ids[x] },
            decreases 160 - screen_x,
        {
            let x = screen_x.wrapping_add(scx);
            let color_id = self.map_color_id(tile_map_base, signed_tile_addressing, x, y);
            assert(color_id == bg_color(p0, screen_x as int));

            let shade = apply_palette(color_id, bgp);
            let fb_index = self.regs.ly as usize * 160 + screen_x as usize;
            self.frame_buffer.set(fb_index, shade_to_rgb(shade));
            self.bg_color_ids.set(screen_x as usize, color_id);
            screen_x += 1;
        }
        proof {
            assert(self@.frame_buffer =~= p0.render_background().frame_buffer);
            assert(self@.bg_color_ids =~= p0.render_background().bg_color_ids);
        }
    }
}

} // verus!

verus! {

/// The window colour number at screen column `sx` of the current line
/// (the window's left edge is at WX - 7; its rows count from WY).
pub open spec fn window_color(p: PpuView, sx: int) -> u8 {
    let lcdc = p.regs.lcdc;
    let base: int = if lcdc & 0x40 != 0 { 0x9C00 } else { 0x9800 };
    let signed = lcdc & 0x10 == 0;
    let y = p.regs.ly - p.regs.wy;
    let x = sx - (p.regs.wx - 7);
    let tile_index = p.vram[base + (y / 8) * 32 + x / 8 - 0x8000];
    tile_pixel(p.vram, tile_data_addr(tile_index, signed) + (y % 8) * 2, (7 - x % 8) as u8)
}

impl PpuView {
    /// Whether the window covers any of the current line.
    pub open spec fn window_visible(&self) -> bool {
        self.regs.ly >= self.regs.wy && self.regs.wx <= 166
    }

    /// The PPU after drawing the window over the current line.
    pub open spec fn render_window(&self) -> PpuView {
        let ly = self.regs.ly;
        let left = self.regs.wx - 7;
        if !self.window_visible() {
            *self
        } else {
            PpuView {
                frame_buffer: Seq::new(self.frame_buffer.len(), |i: int|
                    if on_line(i, ly) && i - ly * 160 >= left {
                        pixel_rgb(window_color(*self, i - ly * 160), self.regs.bgp)
                    } else {
                        self.frame_buffer[i]
                    }),
                bg_color_ids: Seq::new(160, |x: int|
                    if x >= left { window_color(*self, x) } else { self.bg_color_ids[x] }),
                ..*self
            }
        }
    }
}

impl Ppu {
    /// Draws the window over the current line, when it is on this line and
    /// on screen, and records its colour numbers.
    pub fn render_window_line(&mut self)
        requires
            old(self)@.wf(),
            old(self)@.window_visible() ==> old(self).regs.ly < 144,
        ensures
            final(self)@ == old(self)@.render_window(),
    {
        let lcdc = self.regs.lcdc;
        let wy = self.regs.wy;
        let wx = self.regs.wx;

        if self.regs.ly < wy {
            return;
        }
        if wx > 166 {
            return;
        }

        let bgp = self.regs.bgp;
        let tile_map_base: u16 = if lcdc & 0x40 != 0 { 0x9C00 } else { 0x9800 };
        let signed_tile_addressing = lcdc & 0x10 == 0;

        let window_y = self.regs.ly - wy;
        let wx_signed = wx as i16 - 7;
        let ghost p0 = self@;
        let ghost left = p0.regs.wx - 7;

        let mut screen_x: i16 = 0;
        while screen_x < 160
            invariant
                p0 == old(self)@,
                p0.wf(),
                p0.regs.ly < 144,
                p0.window_visible(),
                left == p0.regs.wx - 7,
                wx_signed == left,
                lcdc == p0.regs.lcdc,
                bgp == p0.regs.bgp,
                tile_map_base == (if lcdc & 0x40 != 0 { 0x9C00int } else { 0x9800int }),
                signed_tile_addressing == (lcdc & 0x10 == 0),
                window_y == p0.regs.ly - p0.regs.wy,
                0 <= screen_x <= 160,
                self@ == (PpuView { frame_buffer: self@.frame_buffer, bg_color_ids: self@.bg_color_ids, ..p0 }),
                self@.frame_buffer.len() == 160 * 144,
                self@.bg_color_ids.len() == 160,
                forall|i: int| 0 <= i < 160 * 144 ==> #[trigger] self@.frame_buffer[i] == if on_line(i, p0.regs.ly)
                    && i - p0.regs.ly * 160 < screen_x && i - p0.regs.ly * 160 >= left {
                    pixel_rgb(window_color(p0, i - p0.regs.ly * 160), bgp)
                } else {
                    p0.frame_buffer[i]
                },
                forall|x: int| 0 <= x < 160 ==> #[trigger] self@.bg_color_ids[x] == if x < screen_x && x >= left {
                    window_color(p0, x)
                } else {
                    p0.bg_color_ids[x]
                },
            decreases 160 - screen_x,
        {
            let window_x = screen_x - wx_signed;
            if window_x >= 0 {
                let window_x = window_x as u8;
                let color_id = self.map_color_id(tile_map_base, signed_tile_addressing, window_x, window_y);
                assert(color_id == window_color(p0, screen_x as int));

                let shade = apply_palette(color_id, bgp);
                let fb_index = self.regs.ly as usize * 160 + screen_x as usize;
                self.frame_buffer.set(fb_index, shade_to_rgb(shade));
                self.bg_color_ids.set(screen_x as usize, color_id);
            }
            screen_x += 1;
        }
        proof {
            assert(self@.frame_buffer =~= p0.render_window().frame_buffer);
            assert(self@.bg_color_ids =~= p0.render_window().bg_color_ids);
        }
    }
}

} // verus!

verus! {

/// OAM entry `i` with its position made relative to the screen.
pub open spec fn sprite_at(p: PpuView, i: int) -> SpriteAttr {
    SpriteAttr {
        y: ((p.oam[4 * i] + 240) % 256) as u8,
        x: ((p.oam[4 * i + 1] + 248) % 256) as u8,
        tile: p.oam[4 * i + 2],
        flags: p.oam[4 * i + 3],
    }
}

/// The sprite height that LCDC selects (8 or 16 lines).
pub open spec fn sprite_height(p: PpuView) -> u8 {
    if p.regs.lcdc & 0x04 != 0 { 16 } else { 8 }
}

/// The line of a sprite that the current line crosses (if below its height).
pub open spec fn sprite_row(p: PpuView, s: SpriteAttr) -> int {
    (p.regs.ly + 256 - s.y) % 256
}

/// Whether a sprite crosses the current line.
pub open spec fn on_sprite_row(p: PpuView, s: SpriteAttr) -> bool {
    sprite_row(p, s) < sprite_height(p)
}

/// The sprites that the current line shows, in OAM order: those that cross
/// the line, at most ten, taken from the first `n` OAM entries.
pub open spec fn gathered(p: PpuView, n: nat) -> Seq<(u8, SpriteAttr)>
    decreases n,
{
    if n == 0 {
        Seq::empty()
    } else {
        let prev = gathered(p, (n - 1) as nat);
        if prev.len() < 10 && on_sprite_row(p, sprite_at(p, n - 1)) {
            prev.push(((n - 1) as u8, sprite_at(p, n - 1)))
        } else {
            prev
        }
    }
}

/// The sprites of the current line.
pub open spec fn line_sprites(p: PpuView) -> Seq<(u8, SpriteAttr)> {
    gathered(p, 40)
}

/// Sprite priority: the smaller X wins, then the smaller OAM index.
pub open spec fn sprite_before(a: (u8, SpriteAttr), b: (u8, SpriteAttr)) -> bool {
    a.1.x < b.1.x || (a.1.x == b.1.x && a.0 < b.0)
}

/// The bit of a sprite's tile row that screen column `sx` shows (7 is the
/// leftmost pixel), with the horizontal flip applied.
pub open spec fn sprite_bit(s: SpriteAttr, sx: int) -> u8 {
    let col = (sx + 256 - s.x) % 256;
    (if s.flags & 0x20 != 0 { col } else { 7 - col }) as u8
}

/// The address of the tile row that a sprite shows on the current line,
/// with the vertical flip and the 8x16 tile pairing applied.
pub open spec fn sprite_row_addr(p: PpuView, s: SpriteAttr) -> int {
    let h = sprite_height(p);
    let row0 = sprite_row(p, s);
    let row = if s.flags & 0x40 != 0 { h - 1 - row0 } else { row0 };
    let tile_index = if p.regs.lcdc & 0x04 != 0 {
        if row < 8 { s.tile & 0xFE } else { s.tile | 0x01 }
    } else {
        s.tile
    };
    0x8000 + tile_index * 16 + (row % 8) * 2
}

/// The sprite's colour number at screen column `sx` (meaningful where the
/// sprite crosses the line and covers the column).
pub open spec fn sprite_color(p: PpuView, s: SpriteAttr, sx: int) -> u8 {
    tile_pixel(p.vram, sprite_row_addr(p, s), sprite_bit(s, sx))
}

/// The palette register a sprite uses.
pub open spec fn sprite_palette(p: PpuView, s: SpriteAttr) -> u8 {
    if s.flags & 0x10 != 0 { p.regs.obp1 } else { p.regs.obp0 }
}

/// Whether a sprite draws a pixel at screen column `sx`: on screen, covered
/// by the sprite, not transparent, and not behind a non-zero background
/// colour when the sprite yields to the background.
pub open spec fn sprite_draws(p: PpuView, s: SpriteAttr, sx: int) -> bool {
    &&& 0 <= sx < 160
    &&& (sx + 256 - s.x) % 256 < 8
    &&& sprite_color(p, s, sx) != 0
    &&& !(s.flags & 0x80 != 0 && p.bg_color_ids[sx] != 0)
}

/// `e` is the sprite that shows at column `sx`: it draws there and no
/// sprite of the line with higher priority does.
pub open spec fn is_top_sprite(p: PpuView, e: (u8, SpriteAttr), sx: int) -> bool {
    &&& line_sprites(p).contains(e)
    &&& sprite_draws(p, e.1, sx)
    &&& forall|f: (u8, SpriteAttr)| #[trigger] line_sprites(p).contains(f) && sprite_draws(p, f.1, sx)
        ==> !sprite_before(f, e)
}

/// Whether some sprite of the line shows at column `sx`.
pub open spec fn has_top_sprite(p: PpuView, sx: int) -> bool {
    exists|e: (u8, SpriteAttr)| #[trigger] is_top_sprite(p, e, sx)
}

/// The sprite that shows at column `sx` (meaningful where `has_top_sprite`).
pub open spec fn top_sprite(p: PpuView, sx: int) -> (u8, SpriteAttr) {
    choose|e: (u8, SpriteAttr)| #[trigger] is_top_sprite(p, e, sx)
}

impl PpuView {
    /// Whether some sprite of the line draws a pixel.
    pub open spec fn sprites_draw_any(&self) -> bool {
        exists|e: (u8, SpriteAttr), sx: int| line_sprites(*self).contains(e) && #[trigger] sprite_draws(*self, e.1, sx)
    }

    /// The PPU after drawing the sprites of the current line: at each
    /// column the sprite with the highest priority that draws there shows.
    pub open spec fn render_sprites(&self) -> PpuView {
        let ly = self.regs.ly;
        PpuView {
            frame_buffer: Seq::new(self.frame_buffer.len(), |i: int|
                if on_line(i, ly) && has_top_sprite(*self, i - ly * 160) {
                    let e = top_sprite(*self, i - ly * 160);
                    pixel_rgb(sprite_color(*self, e.1, i - ly * 160), sprite_palette(*self, e.1))
                } else {
                    self.frame_buffer[i]
                }),
            ..*self
        }
    }
}

} // verus!

verus! {

/// The sprites of the line are OAM entries, in increasing OAM order, each
/// crossing the line, at most ten.
proof fn lemma_gathered(p: PpuView, n: nat)
    requires
        n <= 40,
    ensures
        gathered(p, n).len() <= 10,
        forall|k: int| 0 <= k < gathered(p, n).len() ==> {
            let e = #[trigger] gathered(p, n)[k];
            &&& e.0 < n
            &&& e.1 == sprite_at(p, e.0 as int)
            &&& on_sprite_row(p, e.1)
        },
        forall|a: int, b: int| 0 <= a < b < gathered(p, n).len() ==> #[trigger] gathered(p, n)[a].0 < #[trigger] gathered(p, n)[b].0,
    decreases n,
{
    if n > 0 {
        lemma_gathered(p, (n - 1) as nat);
    }
}

/// Once ten sprites are found, later OAM entries add none.
proof fn lemma_gathered_full(p: PpuView, n: nat, m: nat)
    requires
        n <= m,
        gathered(p, n).len() >= 10,
    ensures
        gathered(p, m) == gathered(p, n),
    decreases m - n,
{
    if m > n {
        lemma_gathered_full(p, n, (m - 1) as nat);
    }
}

/// The first entry at or after `k` of `s` that draws at column `sx`
/// (`s.len()` if there is none).
pub open spec fn first_from(p: PpuView, s: Seq<(u8, SpriteAttr)>, k: int, sx: int) -> int
    decreases s.len() - k,
{
    if 0 <= k < s.len() {
        if sprite_draws(p, s[k].1, sx) {
            k
        } else {
            first_from(p, s, k + 1, sx)
        }
    } else {
        s.len() as int
    }
}

proof fn lemma_first_from(p: PpuView, s: Seq<(u8, SpriteAttr)>, k: int, sx: int)
    requires
        0 <= k <= s.len(),
    ensures
        k <= first_from(p, s, k, sx) <= s.len(),
        first_from(p, s, k, sx) < s.len() ==> sprite_draws(p, s[first_from(p, s, k, sx)].1, sx),
        forall|t: int| k <= t < first_from(p, s, k, sx) ==> !sprite_draws(p, #[trigger] s[t].1, sx),
    decreases s.len() - k,
{
    if k < s.len() {
        lemma_first_from(p, s, k + 1, sx);
    }
}

/// Entries in strictly increasing priority order.
pub open spec fn by_priority(s: Seq<(u8, SpriteAttr)>) -> bool {
    forall|a: int, b: int| 0 <= a < b < s.len() ==> sprite_before(#[trigger] s[a], #[trigger] s[b])
}

/// In a priority-ordered list of the line's sprites, the first that draws
/// at a column is the one that shows there.
proof fn lemma_first_is_top(p: PpuView, order: Seq<(u8, SpriteAttr)>, sx: int)
    requires
        by_priority(order),
        forall|e: (u8, SpriteAttr)| #[trigger] order.contains(e) <==> line_sprites(p).contains(e),
    ensures
        (first_from(p, order, 0, sx) < order.len()) == has_top_sprite(p, sx),
        first_from(p, order, 0, sx) < order.len() ==> top_sprite(p, sx) == order[first_from(p, order, 0, sx)],
{
    lemma_gathered(p, 40);
    lemma_first_from(p, order, 0, sx);
    let j = first_from(p, order, 0, sx);
    let ls = line_sprites(p);
    if j < order.len() {
        let e = order[j];
        assert(order.contains(e));
        assert forall|f: (u8, SpriteAttr)| #[trigger] ls.contains(f) && sprite_draws(p, f.1, sx)
            implies !sprite_before(f, e) by {
            assert(order.contains(f));
            let t = choose|t: int| 0 <= t < order.len() && order[t] == f;
            if t < j {
                assert(!sprite_draws(p, order[t].1, sx));
            } else if t > j {
                assert(sprite_before(order[j], order[t]));
            }
        }
        assert(is_top_sprite(p, e, sx));
        assert(has_top_sprite(p, sx));
        let e2 = top_sprite(p, sx);
        assert(is_top_sprite(p, e2, sx));
        assert(!sprite_before(e, e2));
        assert(!sprite_before(e2, e));
        let a = choose|a: int| 0 <= a < ls.len() && ls[a] == e;
        let b = choose|b: int| 0 <= b < ls.len() && ls[b] == e2;
        assert(ls[a].1 == sprite_at(p, ls[a].0 as int));
        assert(ls[b].1 == sprite_at(p, ls[b].0 as int));
        assert(e2 == e);
    } else {
        if has_top_sprite(p, sx) {
            let e = choose|e: (u8, SpriteAttr)| #[trigger] is_top_sprite(p, e, sx);
            assert(order.contains(e));
            let t = choose|t: int| 0 <= t < order.len() && order[t] == e;
            assert(!sprite_draws(p, order[t].1, sx));
        }
    }
}

} // verus!

verus! {

/// Whether `a` has higher drawing priority than `b`.
fn sprite_key_before(a: &(u8, SpriteAttr), b: &(u8, SpriteAttr)) -> (r: bool)
    ensures
        r == sprite_before(*a, *b),
{
    a.1.x < b.1.x || (a.1.x == b.1.x && a.0 < b.0)
}

impl Ppu {
    /// OAM entry `i`, its position made relative to the screen.
    fn oam_sprite(&self, i: u8) -> (s: SpriteAttr)
        requires
            self@.wf(),
            i < 40,
        ensures
            s == sprite_at(self@, i as int),
    {
        let base = 0xFE00 + (i as u16) * 4;
        SpriteAttr {
            y: self.read_oam(base).wrapping_sub(16),
            x: self.read_oam(base + 1).wrapping_sub(8),
            tile: self.read_oam(base + 2),
            flags: self.read_oam(base + 3),
        }
    }

    /// The sprites that cross the current line, at most ten, in OAM order.
    fn gather_line_sprites(&self) -> (visible: Vec<(u8, SpriteAttr)>)
        requires
            self@.wf(),
        ensures
            visible@ == line_sprites(self@),
    {
        let height: u8 = if self.regs.lcdc & 0x04 != 0 { 16 } else { 8 };
        let mut visible: Vec<(u8, SpriteAttr)> = Vec::with_capacity(10);
        let mut i: u8 = 0;
        while i < 40 && visible.len() < 10
            invariant
                self@.wf(),
                i <= 40,
                height == sprite_height(self@),
                visible@ == gathered(self@, i as nat),
            decreases 40 - i,
        {
            let sprite = self.oam_sprite(i);
            let sprite_row = self.regs.ly.wrapping_sub(sprite.y);
            if sprite_row < height {
                visible.push((i, sprite));
            }
            i += 1;
        }
        proof {
            if i < 40 {
                lemma_gathered(self@, i as nat);
                lemma_gathered_full(self@, i as nat, 40);
            }
        }
        visible
    }

    /// The given sprites sorted by priority (smaller X first, then OAM order).
    fn sort_by_priority(visible: &Vec<(u8, SpriteAttr)>) -> (order: Vec<(u8, SpriteAttr)>)
        requires
            forall|a: int, b: int| 0 <= a < b < visible.len() ==> #[trigger] visible[a].0 < #[trigger] visible[b].0,
        ensures
            by_priority(order@),
            forall|e: (u8, SpriteAttr)| #[trigger] order@.contains(e) <==> visible@.contains(e),
    {
        let mut order: Vec<(u8, SpriteAttr)> = Vec::with_capacity(visible.len());
        let mut k: usize = 0;
        while k < visible.len()
            invariant
                k <= visible.len(),
                forall|a: int, b: int| 0 <= a < b < visible.len() ==> #[trigger] visible[a].0 < #[trigger] visible[b].0,
                by_priority(order@),
                forall|e: (u8, SpriteAttr)| #[trigger] order@.contains(e) <==> visible@.take(k as int).contains(e),
            decreases visible.len() - k,
        {
            let e = visible[k];
            assert forall|t: int| 0 <= t < order.len() implies #[trigger] order[t].0 < e.0 by {
                assert(order@.contains(order[t]));
                let a = choose|a: int| 0 <= a < k && visible@.take(k as int)[a] == order[t];
                assert(visible[a].0 < visible[k as int].0);
            }
            let mut j: usize = 0;
            while j < order.len() && !sprite_key_before(&e, &order[j])
                invariant
                    j <= order.len(),
                    forall|t: int| 0 <= t < j ==> sprite_before(#[trigger] order[t], e),
                    forall|t: int| 0 <= t < order.len() ==> #[trigger] order[t].0 < e.0,
                decreases order.len() - j,
            {
                j += 1;
            }
            let ghost before = order@;
            order.insert(j, e);
            proof {
                assert forall|a: int, b: int| 0 <= a < b < order.len() implies sprite_before(#[trigger] order@[a], #[trigger] order@[b]) by {
                    if b < j {
                        assert(sprite_before(before[a], before[b]));
                    } else if a < j && b == j {
                    } else if a < j {
                        assert(sprite_before(before[a], e));
                        assert(sprite_before(e, before[j as int]));
                        if b - 1 > j {
                            assert(sprite_before(before[j as int], before[b - 1]));
                        }
                    } else if a == j {
                        assert(sprite_before(e, before[j as int]));
                        if b - 1 > j {
                            assert(sprite_before(before[j as int], before[b - 1]));
                        }
                    } else {
                        assert(sprite_before(before[a - 1], before[b - 1]));
                    }
                }
                let next = visible@.take(k + 1);
                assert forall|x: (u8, SpriteAttr)| #[trigger] order@.contains(x) <==> next.contains(x) by {
                    if order@.contains(x) {
                        let t = choose|t: int| 0 <= t < order.len() && order@[t] == x;
                        if t != j {
                            let t2 = if t < j { t } else { t - 1 };
                            assert(before[t2] == x);
                            assert(before.contains(x));
                            let a = choose|a: int| 0 <= a < k && visible@.take(k as int)[a] == x;
                            assert(next[a] == x);
                        } else {
                            assert(next[k as int] == x);
                        }
                    }
                    if next.contains(x) {
                        let a = choose|a: int| 0 <= a < k + 1 && next[a] == x;
                        if a < k {
                            assert(visible@.take(k as int)[a] == x);
                            assert(before.contains(x));
                            let t = choose|t: int| 0 <= t < before.len() && before[t] == x;
                            if t < j {
                                assert(order@[t] == x);
                            } else {
                                assert(order@[t + 1] == x);
                            }
                        } else {
                            assert(order@[j as int] == x);
                        }
                    }
                }
            }
            k += 1;
        }
        assert(visible@.take(visible.len() as int) =~= visible@);
        order
    }
}

} // verus!

verus! {

/// The frame buffer after one sprite is drawn over the current line.
pub open spec fn draw_one(p: PpuView, fb: Seq<u32>, s: SpriteAttr) -> Seq<u32> {
    let ly = p.regs.ly;
    Seq::new(fb.len(), |i: int|
        if on_line(i, ly) && sprite_draws(p, s, i - ly * 160) {
            pixel_rgb(sprite_color(p, s, i - ly * 160), sprite_palette(p, s))
        } else {
            fb[i]
        })
}

impl Ppu {
    /// The address of the tile row that a sprite crossing the current line shows.
    #[verifier::spinoff_prover]
    fn sprite_tile_row(&self, sprite: SpriteAttr) -> (row_addr: u16)
        requires
            self@.wf(),
            on_sprite_row(self@, sprite),
        ensures
            row_addr == sprite_row_addr(self@, sprite),
            0x8000 <= row_addr <= 0x8FFE,
    {
        let tall_sprites = self.regs.lcdc & 0x04 != 0;
        let sprite_height: u8 = if tall_sprites { 16 } else { 8 };
        let mut row = self.regs.ly.wrapping_sub(sprite.y);
        if sprite.flags & 0x40 != 0 {
            row = sprite_height - 1 - row;
        }
        let tile_index = if tall_sprites {
            if row < 8 { sprite.tile & 0xFE } else { sprite.tile | 0x01 }
        } else {
            sprite.tile
        };
        let row_in_tile = row % 8;
        let tile_data_addr = 0x8000 + (tile_index as u16) * 16;
        tile_data_addr + (row_in_tile as u16) * 2
    }

    /// Draws one sprite that crosses the current line.
    fn draw_sprite(&mut self, sprite: SpriteAttr)
        requires
            old(self)@.wf(),
            on_sprite_row(old(self)@, sprite),
            old(self).regs.ly < 144 || forall|sx: int| !#[trigger] sprite_draws(old(self)@, sprite, sx),
        ensures
            final(self)@ == (PpuView { frame_buffer: draw_one(old(self)@, old(self)@.frame_buffer, sprite), ..old(self)@ }),
    {
        let ghost p0 = self@;
        let x_flip = sprite.flags & 0x20 != 0;
        let palette = if sprite.flags & 0x10 != 0 { self.regs.obp1 } else { self.regs.obp0 };
        let bg_priority = sprite.flags & 0x80 != 0;
        let row_addr = self.sprite_tile_row(sprite);
        let low_byte = self.read_vram(row_addr);
        let high_byte = self.read_vram(row_addr + 1);

        let mut col: u8 = 0;
        while col < 8
            invariant
                p0 == old(self)@,
                p0.wf(),
                on_sprite_row(p0, sprite),
                p0.regs.ly < 144 || forall|sx: int| !#[trigger] sprite_draws(p0, sprite, sx),
                col <= 8,
                palette == sprite_palette(p0, sprite),
                bg_priority == (sprite.flags & 0x80 != 0),
                x_flip == (sprite.flags & 0x20 != 0),
                low_byte == p0.vram[row_addr - 0x8000],
                high_byte == p0.vram[row_addr + 1 - 0x8000],
                row_addr == sprite_row_addr(p0, sprite),
                self@ == (PpuView { frame_buffer: self@.frame_buffer, ..p0 }),
                self@.frame_buffer.len() == 160 * 144,
                forall|i: int| 0 <= i < 160 * 144 ==> #[trigger] self@.frame_buffer[i] ==
                    if on_line(i, p0.regs.ly) && (i - p0.regs.ly * 160 + 256 - sprite.x) % 256 < col
                        && sprite_draws(p0, sprite, i - p0.regs.ly * 160) {
                        pixel_rgb(sprite_color(p0, sprite, i - p0.regs.ly * 160), sprite_palette(p0, sprite))
                    } else {
                        p0.frame_buffer[i]
                    },
            decreases 8 - col,
        {
            let screen_x = sprite.x.wrapping_add(col);
            if screen_x < 160 {
                let bit = if x_flip { col } else { 7 - col };
                proof { lemma_row_color(low_byte, high_byte, bit); }
                let color_id = ((high_byte >> bit) & 1) << 1 | ((low_byte >> bit) & 1);
                assert(color_id == sprite_color(p0, sprite, screen_x as int));
                if color_id != 0 {
                    if !(bg_priority && self.bg_color_ids[screen_x as usize] != 0) {
                        assert(sprite_draws(p0, sprite, screen_x as int));
                        let shade = apply_palette(color_id, palette);
                        let fb_index = self.regs.ly as usize * 160 + screen_x as usize;
                        self.frame_buffer.set(fb_index, shade_to_rgb(shade));
                    }
                }
            }
            col += 1;
        }
        proof {
            assert(self@.frame_buffer =~= draw_one(p0, p0.frame_buffer, sprite));
        }
    }
}

impl Ppu {
    /// Draws the sprites of the current line: up to ten that cross it, in
    /// OAM order; where they overlap, the smaller X (then the smaller OAM
    /// index) shows.
    pub fn render_sprites_line(&mut self)
        requires
            old(self)@.wf(),
            old(self).regs.ly < 144 || !old(self)@.sprites_draw_any(),
        ensures
            final(self)@ == old(self)@.render_sprites(),
    {
        let ghost p0 = self@;
        let visible = self.gather_line_sprites();
        proof { lemma_gathered(p0, 40); }
        let order = Self::sort_by_priority(&visible);
        proof {
            let ls = line_sprites(p0);
            assert forall|t: int| 0 <= t < order.len() implies on_sprite_row(p0, #[trigger] order[t].1) by {
                assert(order@.contains(order[t]));
                let a = choose|a: int| 0 <= a < ls.len() && ls[a] == order[t];
                assert(on_sprite_row(p0, ls[a].1));
            }
        }

        let mut k: usize = order.len();
        while k > 0
            invariant
                p0 == old(self)@,
                p0.wf(),
                p0.regs.ly < 144 || !p0.sprites_draw_any(),
                k <= order.len(),
                forall|e: (u8, SpriteAttr)| #[trigger] order@.contains(e) ==> line_sprites(p0).contains(e),
                forall|t: int| 0 <= t < order.len() ==> on_sprite_row(p0, #[trigger] order[t].1),
                self@ == (PpuView { frame_buffer: self@.frame_buffer, ..p0 }),
                self@.frame_buffer.len() == 160 * 144,
                forall|i: int| 0 <= i < 160 * 144 ==> #[trigger] self@.frame_buffer[i] == {
                    let sx = i - p0.regs.ly * 160;
                    let j = first_from(p0, order@, k as int, sx);
                    if on_line(i, p0.regs.ly) && j < order.len() {
                        pixel_rgb(sprite_color(p0, order[j].1, sx), sprite_palette(p0, order[j].1))
                    } else {
                        p0.frame_buffer[i]
                    }
                },
            decreases k,
        {
            k -= 1;
            let sprite = order[k].1;
            proof {
                assert(order@.contains(order[k as int]));
                assert forall|sx: int| p0.regs.ly >= 144 implies !#[trigger] sprite_draws(self@, sprite, sx) by {
                    assert(sprite_draws(self@, sprite, sx) == sprite_draws(p0, sprite, sx));
                    if sprite_draws(p0, sprite, sx) {
                        assert(line_sprites(p0).contains(order[k as int]));
                    }
                }
            }
            self.draw_sprite(sprite);
        }
        proof {
            assert forall|i: int| 0 <= i < 160 * 144 implies #[trigger] self@.frame_buffer[i] == p0.render_sprites().frame_buffer[i] by {
                lemma_first_is_top(p0, order@, i - p0.regs.ly * 160);
            }
            assert(self@.frame_buffer =~= p0.render_sprites().frame_buffer);
        }
    }
}

impl PpuView {
    /// The line after the background layer, when LCDC enables it.
    pub open spec fn with_background(&self) -> PpuView {
        if self.regs.lcdc & 0x01 != 0 { self.render_background() } else { *self }
    }

    /// The line after the background and window layers.
    pub open spec fn with_window(&self) -> PpuView {
        let a = self.with_background();
        if self.regs.lcdc & 0x20 != 0 { a.render_window() } else { a }
    }

    /// The PPU after drawing the current line: nothing while the LCD is
    /// off; else background, window and sprites, each when LCDC enables it.
    pub open spec fn render_scanline(&self) -> PpuView {
        if self.regs.lcdc & 0x80 == 0 {
            *self
        } else {
            let b = self.with_window();
            if self.regs.lcdc & 0x02 != 0 { b.render_sprites() } else { b }
        }
    }

    /// Whether drawing the current line stays inside the frame: on a line
    /// below the screen no enabled layer may draw a pixel.
    pub open spec fn render_ok(&self) -> bool {
        let lcdc = self.regs.lcdc;
        ||| lcdc & 0x80 == 0
        ||| self.regs.ly < 144
        ||| {
            &&& lcdc & 0x01 == 0
            &&& !(lcdc & 0x20 != 0 && self.window_visible())
            &&& (lcdc & 0x02 != 0 ==> !self.sprites_draw_any())
        }
    }
}

impl Ppu {
    /// Draws the current line into the frame buffer.
    pub fn render_scanline(&mut self)
        requires
            old(self)@.wf(),
            old(self)@.render_ok(),
        ensures
            final(self)@ == old(self)@.render_scanline(),
    {
        let lcdc = self.regs.lcdc;
        if lcdc & 0x80 == 0 {
            return;
        }
        if lcdc & 0x01 != 0 {
            self.render_background_line();
        }
        if lcdc & 0x20 != 0 {
            self.render_window_line();
        }
        if lcdc & 0x02 != 0 {
            self.render_sprites_line();
        }
    }
}

/// The sprite layer reads only OAM, video memory, the registers and the
/// background colour numbers.
proof fn lemma_sprites_congruent(p: PpuView, q: PpuView)
    requires
        p.oam == q.oam,
        p.vram == q.vram,
        p.regs == q.regs,
        p.bg_color_ids == q.bg_color_ids,
    ensures
        line_sprites(p) == line_sprites(q),
        p.sprites_draw_any() == q.sprites_draw_any(),
{
    lemma_gathered_congruent(p, q, 40);
    if p.sprites_draw_any() {
        let (e, sx) = choose|e: (u8, SpriteAttr), sx: int| line_sprites(p).contains(e) && #[trigger] sprite_draws(p, e.1, sx);
        assert(sprite_draws(q, e.1, sx));
    }
    if q.sprites_draw_any() {
        let (e, sx) = choose|e: (u8, SpriteAttr), sx: int| line_sprites(q).contains(e) && #[trigger] sprite_draws(q, e.1, sx);
        assert(sprite_draws(p, e.1, sx));
    }
}

proof fn lemma_gathered_congruent(p: PpuView, q: PpuView, n: nat)
    requires
        p.oam == q.oam,
        p.regs == q.regs,
    ensures
        gathered(p, n) == gathered(q, n),
    decreases n,
{
    if n > 0 {
        lemma_gathered_congruent(p, q, (n - 1) as nat);
    }
}

/// Drawing a line below the screen that may be drawn changes nothing.
proof fn lemma_render_idle(p: PpuView)
    requires
        p.render_ok(),
        p.regs.ly >= 144,
    ensures
        p.render_scanline() == p,
{
    if p.regs.lcdc & 0x80 != 0 && p.regs.lcdc & 0x02 != 0 {
        assert forall|i: int| 0 <= i < p.frame_buffer.len() implies !(on_line(i, p.regs.ly) && has_top_sprite(p, i - p.regs.ly * 160)) by {
            if on_line(i, p.regs.ly) && has_top_sprite(p, i - p.regs.ly * 160) {
                let e = choose|e: (u8, SpriteAttr)| #[trigger] is_top_sprite(p, e, i - p.regs.ly * 160);
                assert(sprite_draws(p, e.1, i - p.regs.ly * 160));
            }
        }
        assert(p.render_sprites().frame_buffer =~= p.frame_buffer);
    }
}

impl PpuView {
    /// OAM scan: once 80 dots have passed, drawing begins.
    pub open spec fn run_oam_scan(&self) -> PpuView {
        if self.dot_counter >= 80 {
            PpuView { dot_counter: self.dot_counter % 80, mode: PpuMode::Drawing, ..*self }
        } else {
            *self
        }
    }

    /// Drawing: each 172 dots finish (and draw) the line and enter HBlank.
    pub open spec fn run_drawing(&self) -> PpuView
        decreases self.dot_counter,
    {
        if self.dot_counter >= 172 {
            let r = self.render_scanline();
            PpuView { dot_counter: (self.dot_counter - 172) as u16, mode: PpuMode::HBlank, ..r }.run_drawing()
        } else {
            *self
        }
    }

    /// The HBlank right after the LCD is switched on: once 80 dots have
    /// passed, drawing begins.
    pub open spec fn run_first_hblank(&self) -> PpuView {
        if self.dot_counter >= 80 {
            PpuView { dot_counter: self.dot_counter % 80, mode: PpuMode::Drawing, just_enabled: false, ..*self }
        } else {
            *self
        }
    }

    /// Whether an HBlank run reaches line 144.
    pub open spec fn hblank_reaches_vblank(&self) -> bool {
        self.regs.ly < 144 <= self.regs.ly + self.dot_counter / 204
    }

    /// HBlank: each 204 dots end a line; line 144 starts VBlank and marks
    /// the frame ready, other lines start an OAM scan.
    pub open spec fn run_hblank(&self) -> PpuView {
        let n = self.dot_counter / 204;
        let ly = self.regs.ly + n;
        if n == 0 {
            *self
        } else {
            PpuView {
                dot_counter: self.dot_counter % 204,
                mode: if ly == 144 { PpuMode::VBlank } else { PpuMode::OamScan },
                ready: self.ready || self.hblank_reaches_vblank(),
                regs: PpuRegs { ly: ly as u8, ..self.regs },
                ..*self
            }
        }
    }

    /// VBlank: each 456 dots end a line; after line 153 the frame restarts
    /// at line 0 with an OAM scan.
    pub open spec fn run_vblank(&self) -> PpuView
        decreases self.dot_counter,
    {
        if self.dot_counter >= 456 {
            let ly = self.regs.ly + 1;
            let next = if ly > 153 {
                PpuView {
                    dot_counter: (self.dot_counter - 456) as u16,
                    mode: PpuMode::OamScan,
                    regs: PpuRegs { ly: 0, ..self.regs },
                    ..*self
                }
            } else {
                PpuView { dot_counter: (self.dot_counter - 456) as u16, regs: PpuRegs { ly: ly as u8, ..self.regs }, ..*self }
            };
            next.run_vblank()
        } else {
            *self
        }
    }

    /// The dots of one step spent in the current mode.
    pub open spec fn run_mode(&self) -> PpuView {
        match self.mode {
            PpuMode::OamScan => self.run_oam_scan(),
            PpuMode::Drawing => self.run_drawing(),
            PpuMode::HBlank => if self.just_enabled { self.run_first_hblank() } else { self.run_hblank() },
            PpuMode::VBlank => self.run_vblank(),
        }
    }

    /// The PPU as a step with the LCD on finds it: a fresh HBlank at dot 0
    /// when the LCD was off at the last step, with the step's dots added.
    pub open spec fn started(&self, cycles: u8) -> PpuView {
        let q = if !self.was_on_last_step {
            PpuView { dot_counter: 0, mode: PpuMode::HBlank, just_enabled: true, ..*self }
        } else {
            *self
        };
        PpuView { was_on_last_step: true, dot_counter: (q.dot_counter + cycles) as u16, ..q }
    }

    /// Whether a step of `cycles` dots runs without overflow and draws only
    /// inside the frame.
    pub open spec fn step_ok(&self, cycles: u8) -> bool {
        let base: int = if self.was_on_last_step { self.dot_counter as int } else { 0 };
        let q = self.started(cycles);
        ||| self.regs.lcdc & 0x80 == 0
        ||| {
            &&& base + cycles <= 0xFFFF
            &&& q.mode == PpuMode::Drawing && q.dot_counter >= 172 ==> q.render_ok()
            &&& q.mode == PpuMode::HBlank && !q.just_enabled ==> q.regs.ly + q.dot_counter / 204 <= 255
            &&& q.mode == PpuMode::VBlank && q.dot_counter >= 456 ==> q.regs.ly != 255
        }
    }

    /// The PPU after a step of `cycles` dots, and the interrupts it raises:
    /// with the LCD off it rests in HBlank at line 0; else it advances
    /// through its modes, VBlank is raised when line 144 begins, and STAT on
    /// a rising edge of the STAT line.
    pub open spec fn step(&self, cycles: u8) -> (PpuView, PpuEvents) {
        if self.regs.lcdc & 0x80 == 0 {
            (PpuView {
                dot_counter: 0,
                mode: PpuMode::HBlank,
                regs: PpuRegs { ly: 0, ..self.regs },
                stat_line: false,
                was_on_last_step: false,
                ..*self
            }, PpuEvents { vblank: false, stat: false })
        } else {
            let q = self.started(cycles);
            let r = q.run_mode();
            let vblank = q.mode == PpuMode::HBlank && !q.just_enabled && q.hblank_reaches_vblank();
            (PpuView { stat_line: r.stat_line_level(), ..r },
             PpuEvents { vblank, stat: r.stat_line_level() && !r.stat_line })
        }
    }
}

impl Ppu {
    fn step_oam_scan(&mut self)
        requires
            old(self)@.wf(),
        ensures
            final(self)@ == old(self)@.run_oam_scan(),
            final(self)@.wf(),
    {
        let ghost p0 = self@;
        let ghost mut k: int = 0;
        while self.dot_counter >= 80
            invariant
                0 <= k,
                self.dot_counter == p0.dot_counter - 80 * k,
                self.mode == (if k == 0 { p0.mode } else { PpuMode::Drawing }),
                self@ == (PpuView { dot_counter: self.dot_counter, mode: self.mode, ..p0 }),
            decreases self.dot_counter,
        {
            self.dot_counter -= 80;
            self.mode = PpuMode::Drawing;
            proof { k = k + 1; }
        }
        proof {
            vstd::arithmetic::div_mod::lemma_fundamental_div_mod_converse(p0.dot_counter as int, 80, k, self.dot_counter as int);
        }
    }

    fn step_drawing(&mut self)
        requires
            old(self)@.wf(),
            old(self).dot_counter >= 172 ==> old(self)@.render_ok(),
        ensures
            final(self)@ == old(self)@.run_drawing(),
            final(self)@.wf(),
    {
        let ghost p0 = self@;
        while self.dot_counter >= 172
            invariant
                self@.wf(),
                self@.run_drawing() == p0.run_drawing(),
                self.dot_counter >= 172 ==> self@.render_ok(),
            decreases self.dot_counter,
        {
            let ghost before = self@;
            self.render_scanline();
            self.dot_counter -= 172;
            self.mode = PpuMode::HBlank;
            proof {
                if self.dot_counter >= 172 && before.regs.ly >= 144 {
                    lemma_render_idle(before);
                    lemma_sprites_congruent(self@, before);
                }
            }
        }
    }

    fn step_first_hblank(&mut self)
        requires
            old(self)@.wf(),
            old(self).just_enabled,
        ensures
            final(self)@ == old(self)@.run_first_hblank(),
            final(self)@.wf(),
    {
        let ghost p0 = self@;
        let ghost mut k: int = 0;
        while self.dot_counter >= 80
            invariant
                0 <= k,
                self.dot_counter == p0.dot_counter - 80 * k,
                self.mode == (if k == 0 { p0.mode } else { PpuMode::Drawing }),
                self.just_enabled == (k == 0),
                self@ == (PpuView { dot_counter: self.dot_counter, mode: self.mode, just_enabled: self.just_enabled, ..p0 }),
            decreases self.dot_counter,
        {
            self.dot_counter -= 80;
            self.mode = PpuMode::Drawing;
            self.just_enabled = false;
            proof { k = k + 1; }
        }
        proof {
            vstd::arithmetic::div_mod::lemma_fundamental_div_mod_converse(p0.dot_counter as int, 80, k, self.dot_counter as int);
        }
    }

    fn step_hblank(&mut self) -> (vblank: bool)
        requires
            old(self)@.wf(),
            old(self).regs.ly + old(self).dot_counter / 204 <= 255,
        ensures
            final(self)@ == old(self)@.run_hblank(),
            final(self)@.wf(),
            vblank == old(self)@.hblank_reaches_vblank(),
    {
        let ghost p0 = self@;
        let ghost mut k: int = 0;
        let mut vblank = false;
        while self.dot_counter >= 204
            invariant
                0 <= k,
                self.dot_counter == p0.dot_counter - 204 * k,
                self.regs.ly == p0.regs.ly + k,
                p0.regs.ly + p0.dot_counter / 204 <= 255,
                self.mode == (if k == 0 { p0.mode } else if p0.regs.ly + k == 144 { PpuMode::VBlank } else { PpuMode::OamScan }),
                self.ready == (p0.ready || p0.regs.ly < 144 <= p0.regs.ly + k),
                vblank == (p0.regs.ly < 144 <= p0.regs.ly + k),
                self@ == (PpuView {
                    dot_counter: self.dot_counter,
                    mode: self.mode,
                    ready: self.ready,
                    regs: PpuRegs { ly: self.regs.ly, ..p0.regs },
                    ..p0
                }),
            decreases self.dot_counter,
        {
            assert(p0.dot_counter / 204 >= k + 1) by (nonlinear_arith)
                requires
                    p0.dot_counter - 204 * k >= 204,
                    k >= 0,
            {
                vstd::arithmetic::div_mod::lemma_div_is_ordered(204 * (k + 1), p0.dot_counter as int, 204);
                vstd::arithmetic::div_mod::lemma_div_multiples_vanish(k + 1, 204);
            }
            self.dot_counter -= 204;
            self.regs.ly += 1;
            if self.regs.ly == 144 {
                self.mode = PpuMode::VBlank;
                self.ready = true;
                vblank = true;
            } else {
                self.mode = PpuMode::OamScan;
            }
            proof { k = k + 1; }
        }
        proof {
            vstd::arithmetic::div_mod::lemma_fundamental_div_mod_converse(p0.dot_counter as int, 204, k, self.dot_counter as int);
        }
        vblank
    }

    fn step_vblank(&mut self)
        requires
            old(self)@.wf(),
            old(self).dot_counter >= 456 ==> old(self).regs.ly != 255,
        ensures
            final(self)@ == old(self)@.run_vblank(),
            final(self)@.wf(),
    {
        let ghost p0 = self@;
        while self.dot_counter >= 456
            invariant
                self@.wf(),
                self@.run_vblank() == p0.run_vblank(),
                self.dot_counter >= 456 ==> self.regs.ly != 255,
            decreases self.dot_counter,
        {
            self.dot_counter -= 456;
            self.regs.ly += 1;
            if self.regs.ly > 153 {
                self.regs.ly = 0;
                self.mode = PpuMode::OamScan;
            }
        }
    }
}

impl Ppu {
    /// Advances the PPU by `cycles` dots and reports the interrupts raised.
    #[verifier::spinoff_prover]
    pub fn step(&mut self, cycles: u8) -> (events: PpuEvents)
        requires
            old(self)@.wf(),
            old(self)@.step_ok(cycles),
        ensures
            (final(self)@, events) == old(self)@.step(cycles),
            final(self)@.wf(),
    {
        let ghost p0 = self@;
        let mut events = PpuEvents::default();
        let lcd_on = self.regs.lcdc & 0x80 != 0;

        if !lcd_on {
            self.dot_counter = 0;
            self.mode = PpuMode::HBlank;
            self.regs.ly = 0;
            self.stat_line = false;
            self.was_on_last_step = false;
            return events;
        }

        if !self.was_on_last_step {
            self.dot_counter = 0;
            self.mode = PpuMode::HBlank;
            self.just_enabled = true;
        }
        self.was_on_last_step = true;
        self.dot_counter += cycles as u16;
        let ghost q = self@;
        assert(q == p0.started(cycles));

        match self.mode {
            PpuMode::OamScan => self.step_oam_scan(),
            PpuMode::Drawing => self.step_drawing(),
            PpuMode::HBlank => {
                if self.just_enabled {
                    self.step_first_hblank();
                } else {
                    events.vblank = self.step_hblank();
                }
            },
            PpuMode::VBlank => self.step_vblank(),
        }
        assert(self@ == q.run_mode());

        events.stat = self.update_stat_line();
        events
    }
}

impl Ppu {
    /// Whether some sprite of the current line would draw a pixel.
    #[verifier::spinoff_prover]
    pub fn sprites_draw_any(&self) -> (any: bool)
        requires
            self@.wf(),
        ensures
            any == self@.sprites_draw_any(),
    {
        let ghost p = self@;
        let visible = self.gather_line_sprites();
        proof { lemma_gathered(p, 40); }
        let mut t: usize = 0;
        while t < visible.len()
            invariant
                self@ == p,
                p.wf(),
                visible@ == line_sprites(p),
                t <= visible.len(),
                forall|u: int, sx: int| 0 <= u < t ==> !#[trigger] sprite_draws(p, visible[u].1, sx),
            decreases visible.len() - t,
        {
            let sprite = visible[t].1;
            proof {
                lemma_gathered(p, 40);
                assert(gathered(p, 40)[t as int] == visible[t as int]);
            }
            let bg_priority = sprite.flags & 0x80 != 0;
            let x_flip = sprite.flags & 0x20 != 0;
            let row_addr = self.sprite_tile_row(sprite);
            let low_byte = self.read_vram(row_addr);
            let high_byte = self.read_vram(row_addr + 1);
            let mut col: u8 = 0;
            while col < 8
                invariant
                    self@ == p,
                    p.wf(),
                    visible@ == line_sprites(p),
                    t < visible.len(),
                    sprite == visible[t as int].1,
                    col <= 8,
                    bg_priority == (sprite.flags & 0x80 != 0),
                    x_flip == (sprite.flags & 0x20 != 0),
                    row_addr == sprite_row_addr(p, sprite),
                    0x8000 <= row_addr <= 0x8FFE,
                    low_byte == p.vram[row_addr - 0x8000],
                    high_byte == p.vram[row_addr + 1 - 0x8000],
                    forall|sx: int| (sx + 256 - sprite.x) % 256 < col ==> !#[trigger] sprite_draws(p, sprite, sx),
                decreases 8 - col,
            {
                let screen_x = sprite.x.wrapping_add(col);
                if screen_x < 160 {
                    let bit = if x_flip { col } else { 7 - col };
                    let color_id = ((high_byte >> bit) & 1) << 1 | ((low_byte >> bit) & 1);
                    assert(color_id == sprite_color(p, sprite, screen_x as int));
                    if color_id != 0 && !(bg_priority && self.bg_color_ids[screen_x as usize] != 0) {
                        assert(sprite_draws(p, sprite, screen_x as int));
                        assert(line_sprites(p).contains(visible[t as int]));
                        return true;
                    }
                }
                col += 1;
            }
            t += 1;
        }
        proof {
            if p.sprites_draw_any() {
                let (e, sx) = choose|e: (u8, SpriteAttr), sx: int| line_sprites(p).contains(e) && #[trigger] sprite_draws(p, e.1, sx);
                let u = choose|u: int| 0 <= u < visible.len() && visible[u] == e;
                assert(!sprite_draws(p, visible[u].1, sx));
            }
        }
        false
    }

    /// Whether the current line can be drawn without leaving the frame.
    pub fn can_render(&self) -> (ok: bool)
        requires
            self@.wf(),
        ensures
            ok == self@.render_ok(),
    {
        let lcdc = self.regs.lcdc;
        if lcdc & 0x80 == 0 || self.regs.ly < 144 {
            return true;
        }
        let window_shows = lcdc & 0x20 != 0 && self.regs.ly >= self.regs.wy && self.regs.wx <= 166;
        lcdc & 0x01 == 0 && !window_shows && (lcdc & 0x02 == 0 || !self.sprites_draw_any())
    }

    /// Whether `step(cycles)` may be called: the dot counter does not
    /// overflow, nothing is drawn outside the frame, and LY does not pass 255.
    pub fn can_step(&self, cycles: u8) -> (ok: bool)
        requires
            self@.wf(),
        ensures
            ok == self@.step_ok(cycles),
    {
        if self.regs.lcdc & 0x80 == 0 {
            return true;
        }
        let base: u16 = if self.was_on_last_step { self.dot_counter } else { 0 };
        if base as u32 + cycles as u32 > 0xFFFF {
            return false;
        }
        let dots = base + cycles as u16;
        let ghost q = self@.started(cycles);
        let mode = if self.was_on_last_step { self.mode } else { PpuMode::HBlank };
        let just_enabled = if self.was_on_last_step { self.just_enabled } else { true };
        match mode {
            PpuMode::OamScan => true,
            PpuMode::Drawing => {
                proof { lemma_sprites_congruent(q, self@); }
                dots < 172 || self.can_render()
            },
            PpuMode::HBlank => just_enabled || self.regs.ly as u32 + (dots / 204) as u32 <= 255,
            PpuMode::VBlank => dots < 456 || self.regs.ly != 255,
        }
    }
}

/// Writing an LCD register and reading it back gives the value written,
/// except that STAT keeps its own mode and coincidence bits (only bits 3-6
/// are writable) and LY cannot be written.
pub proof fn lemma_reg_write_read(p: PpuView, addr: u16, v: u8)
    ensures
        addr == 0xFF40 || addr == 0xFF42 || addr == 0xFF43 || addr == 0xFF45 || 0xFF47 <= addr <= 0xFF4B
            ==> (PpuView { regs: p.write_reg(addr, v), ..p }).read_reg(addr) == v,
        addr == 0xFF41 ==> (PpuView { regs: p.write_reg(addr, v), ..p }).read_reg(addr) & 0x78 == v & 0x78,
        addr == 0xFF44 ==> p.write_reg(addr, v) == p.regs,
{
    if addr == 0xFF41 {
        let q = PpuView { regs: p.write_reg(addr, v), ..p };
        let on = q.regs.lcdc & 0x80 != 0;
        let mode: u8 = if on { spec_mode_bits(q.mode) } else { 0 };
        let coin: u8 = if on && q.regs.ly == q.regs.lyc { 1 } else { 0 };
        let st = p.regs.stat;
        assert(mode <= 3 && coin <= 1);
        assert(((0x80 | (((st & !0x78u8) | (v & 0x78)) & 0x78) | (coin << 2u8) | mode) & 0x78) == v & 0x78)
            by (bit_vector)
            requires
                mode <= 3,
                coin <= 1;
    }
}

/// The sprites of a line are at most ten OAM entries, in increasing OAM
/// order, each crossing the line.
pub proof fn lemma_line_sprites(p: PpuView)
    ensures
        line_sprites(p).len() <= 10,
        forall|k: int| 0 <= k < line_sprites(p).len() ==> {
            let e = #[trigger] line_sprites(p)[k];
            &&& e.0 < 40
            &&& e.1 == sprite_at(p, e.0 as int)
            &&& on_sprite_row(p, e.1)
        },
        forall|a: int, b: int| 0 <= a < b < line_sprites(p).len() ==> #[trigger] line_sprites(p)[a].0 < #[trigger] line_sprites(p)[b].0,
{
    lemma_gathered(p, 40);
}

impl PpuView {
    /// The PPU's position in the frame is one that its steps reach: LY is
    /// at most 153; after an LCD-off step it rests on line 0; and while
    /// running, lines 0-143 are in OAM scan, drawing or HBlank and lines
    /// 144-153 in VBlank, each with fewer dots counted than its mode lasts.
    pub open spec fn timing_ok(&self) -> bool {
        let ly = self.regs.ly;
        let dc = self.dot_counter;
        &&& ly <= 153
        &&& !self.was_on_last_step ==> ly == 0
        &&& self.was_on_last_step ==> match self.mode {
            PpuMode::OamScan => ly <= 143 && dc < 80,
            PpuMode::Drawing => ly <= 143 && dc < 172,
            PpuMode::HBlank => ly <= 143 && (if self.just_enabled { dc < 80 } else { dc < 204 }),
            PpuMode::VBlank => 144 <= ly && dc < 456,
        }
    }
}

/// Drawing a line changes only the frame buffer and the background colour numbers.
proof fn lemma_render_keeps_timing(p: PpuView)
    ensures
        p.render_scanline() == (PpuView {
            frame_buffer: p.render_scanline().frame_buffer,
            bg_color_ids: p.render_scanline().bg_color_ids,
            ..p
        }),
{
}

/// The PPU after boot is in a reachable position, and register writes keep
/// it so (LY cannot be written).
pub proof fn lemma_timing_start(p: PpuView, addr: u16, v: u8)
    ensures
        PpuView::initial().timing_ok(),
        p.timing_ok() ==> (PpuView { regs: p.write_reg(addr, v), ..p }).timing_ok(),
{
}

/// A step of at most 80 dots (the longest instruction or interrupt takes
/// fewer) from a reachable position is defined and reaches a reachable
/// position, so LY never passes 153; VBlank is raised exactly when line 143
/// gives way to line 144, and then the frame is marked ready; with the LCD
/// off the PPU rests on line 0 at dot 0, raises nothing and keeps its frame.
pub proof fn lemma_step_keeps_timing(p: PpuView, cycles: u8)
    requires
        p.wf(),
        p.timing_ok(),
        cycles <= 80,
    ensures
        p.step_ok(cycles),
        p.step(cycles).0.timing_ok(),
        p.step(cycles).0.regs.ly <= 153,
        p.step(cycles).1.vblank <==> (p.regs.ly == 143 && p.step(cycles).0.regs.ly == 144),
        p.step(cycles).1.vblank ==> p.step(cycles).0.ready,
        p.regs.lcdc & 0x80 == 0 ==> {
            &&& !p.step(cycles).1.vblank
            &&& !p.step(cycles).1.stat
            &&& p.step(cycles).0.regs.ly == 0
            &&& p.step(cycles).0.dot_counter == 0
            &&& p.step(cycles).0.frame_buffer == p.frame_buffer
        },
{
    if p.regs.lcdc & 0x80 != 0 {
        let q = p.started(cycles);
        let dc = q.dot_counter as int;
        assert(q.regs == p.regs);
        match q.mode {
            PpuMode::OamScan => {
                if dc >= 80 {
                    vstd::arithmetic::div_mod::lemma_fundamental_div_mod_converse(dc, 80, 1, dc - 80);
                }
            },
            PpuMode::Drawing => {
                if dc >= 172 {
                    let r = q.render_scanline();
                    lemma_render_keeps_timing(q);
                    let next = PpuView { dot_counter: (q.dot_counter - 172) as u16, mode: PpuMode::HBlank, ..r };
                    assert(next.run_drawing() == next);
                    assert(q.run_drawing() == next);
                }
            },
            PpuMode::HBlank => {
                if q.just_enabled {
                    if dc >= 80 {
                        vstd::arithmetic::div_mod::lemma_fundamental_div_mod_converse(dc, 80, 1, dc - 80);
                    }
                } else if dc >= 204 {
                    vstd::arithmetic::div_mod::lemma_fundamental_div_mod_converse(dc, 204, 1, dc - 204);
                } else {
                    vstd::arithmetic::div_mod::lemma_fundamental_div_mod_converse(dc, 204, 0, dc);
                }
            },
            PpuMode::VBlank => {
                if dc >= 456 {
                    let ly = q.regs.ly + 1;
                    let next = if ly > 153 {
                        PpuView {
                            dot_counter: (q.dot_counter - 456) as u16,
                            mode: PpuMode::OamScan,
                            regs: PpuRegs { ly: 0, ..q.regs },
                            ..q
                        }
                    } else {
                        PpuView { dot_counter: (q.dot_counter - 456) as u16, regs: PpuRegs { ly: ly as u8, ..q.regs }, ..q }
                    };
                    assert(next.run_vblank() == next);
                    assert(q.run_vblank() == next);
                }
            },
        }
    }
}

} // verus!

verus! {

/// The window's rows count from WY: two lines whose LY lies the same
/// distance below WY, with everything else equal, get the same window
/// colours, so moving WY moves the window with it.
pub proof fn lemma_window_rows_follow_wy(p: PpuView, ly: u8, wy: u8)
    requires
        p.window_visible(),
        ly >= wy,
        ly - wy == p.regs.ly - p.regs.wy,
    ensures
        (PpuView { regs: PpuRegs { ly: ly, wy: wy, ..p.regs }, ..p }).window_visible(),
        (PpuView { regs: PpuRegs { ly: ly, wy: wy, ..p.regs }, ..p }).render_window().bg_color_ids
            == p.render_window().bg_color_ids,
{
    let q = PpuView { regs: PpuRegs { ly: ly, wy: wy, ..p.regs }, ..p };
    assert forall|x: int| 0 <= x < 160 implies window_color(q, x) == window_color(p, x) by {}
    assert(q.render_window().bg_color_ids =~= p.render_window().bg_color_ids);
}

/// On the line where the window starts (LY == WY) it shows the top pixel
/// row of the top row of its tile map, its left edge at screen column
/// WX - 7: the column `sx` shows tile-map entry `(sx - (WX - 7)) / 8` of
/// that row, pixel `(sx - (WX - 7)) % 8` from the tile's left.
pub proof fn lemma_window_first_line(p: PpuView, sx: int)
    requires
        p.window_visible(),
        p.regs.ly == p.regs.wy,
        p.regs.wx - 7 <= sx < 160,
        0 <= sx,
        p.bg_color_ids.len() == 160,
    ensures
        ({
            let x = sx - (p.regs.wx - 7);
            let base: int = if p.regs.lcdc & 0x40 != 0 { 0x9C00 } else { 0x9800 };
            let tile = p.vram[base + x / 8 - 0x8000];
            p.render_window().bg_color_ids[sx]
                == tile_pixel(p.vram, tile_data_addr(tile, p.regs.lcdc & 0x10 == 0), (7 - x % 8) as u8)
        }),
{
}

/// X flip mirrors a sprite's eight pixels: without it, the column `col`
/// from the sprite's left edge shows bit `7 - col` of the tile row (the
/// leftmost column its most significant bit); toggling the flip bit makes
/// column `col` show what column `7 - col` showed.
pub proof fn lemma_sprite_x_flip(p: PpuView, s: SpriteAttr, col: int)
    requires
        0 <= col < 8,
    ensures
        s.flags & 0x20 == 0 ==> sprite_color(p, s, s.x + col)
            == tile_pixel(p.vram, sprite_row_addr(p, s), (7 - col) as u8),
        s.flags & 0x20 != 0 ==> sprite_color(p, s, s.x + col)
            == tile_pixel(p.vram, sprite_row_addr(p, s), col as u8),
        sprite_color(p, SpriteAttr { flags: s.flags ^ 0x20, ..s }, s.x + col)
            == sprite_color(p, s, s.x + 7 - col),
{
    let f = s.flags;
    let t = SpriteAttr { flags: f ^ 0x20, ..s };
    assert((f ^ 0x20) & 0x40 == f & 0x40 && (((f ^ 0x20) & 0x20 != 0) == (f & 0x20 == 0))) by (bit_vector);
    assert(sprite_row_addr(p, t) == sprite_row_addr(p, s));
    assert((s.x + col + 256 - s.x) % 256 == col);
    assert((s.x + 7 - col + 256 - s.x) % 256 == 7 - col);
}

/// Scrolling: raising SCX by one shifts the background left by one
/// column, so the line shows at column `sx` what it showed at `sx + 1`;
/// and the background depends on LY and SCY only through their sum
/// modulo 256.
pub proof fn lemma_background_scroll(p: PpuView, sx: int, ly: u8, scy: u8)
    requires
        0 <= sx < 159,
        (ly + scy) % 256 == (p.regs.ly + p.regs.scy) % 256,
    ensures
        (PpuView { regs: PpuRegs { scx: ((p.regs.scx + 1) % 256) as u8, ..p.regs }, ..p })
            .render_background().bg_color_ids[sx] == p.render_background().bg_color_ids[sx + 1],
        (PpuView { regs: PpuRegs { ly: ly, scy: scy, ..p.regs }, ..p }).render_background().bg_color_ids
            == p.render_background().bg_color_ids,
{
    let q = PpuView { regs: PpuRegs { scx: ((p.regs.scx + 1) % 256) as u8, ..p.regs }, ..p };
    assert((sx + q.regs.scx) % 256 == (sx + 1 + p.regs.scx) % 256);
    let r = PpuView { regs: PpuRegs { ly: ly, scy: scy, ..p.regs }, ..p };
    assert(r.render_background().bg_color_ids =~= p.render_background().bg_color_ids);
}

/// The window leaves the columns left of WX - 7 as they were, and on a line
/// above WY (or with WX past 166) it draws nothing.
pub proof fn lemma_window_left_edge(p: PpuView, sx: int)
    requires
        0 <= sx < 160,
        sx < p.regs.wx - 7 || p.regs.ly < p.regs.wy || p.regs.wx > 166,
        p.bg_color_ids.len() == 160,
    ensures
        p.render_window().bg_color_ids[sx] == p.bg_color_ids[sx],
        forall|i: int| 0 <= i < p.frame_buffer.len() && i - p.regs.ly * 160 == sx
            ==> #[trigger] p.render_window().frame_buffer[i] == p.frame_buffer[i],
{
}

/// Y flip mirrors a sprite's rows: with the flip bit toggled, the line
/// `h - 1 - r` rows below the sprite's top shows the tile row that line
/// `r` showed, where `h` is the sprite height. Without flip, an 8-line
/// sprite's top line shows row 0 of its tile.
pub proof fn lemma_sprite_y_flip(p: PpuView, s: SpriteAttr, ly: u8)
    requires
        sprite_row(p, s) < sprite_height(p),
        (ly + 256 - s.y) % 256 == sprite_height(p) - 1 - sprite_row(p, s),
    ensures
        sprite_row_addr(PpuView { regs: PpuRegs { ly: ly, ..p.regs }, ..p }, SpriteAttr { flags: s.flags ^ 0x40, ..s })
            == sprite_row_addr(p, s),
        p.regs.lcdc & 0x04 == 0 && s.flags & 0x40 == 0 && sprite_row(p, s) == 0
            ==> sprite_row_addr(p, s) == 0x8000 + s.tile * 16,
{
    let f = s.flags;
    assert(((f ^ 0x40) & 0x40 != 0) == (f & 0x40 == 0)) by (bit_vector);
}

/// A sprite uses OBP1 when attribute bit 4 is set and OBP0 otherwise; it
/// draws no pixel where its colour number is 0 (transparent), nor, with
/// attribute bit 7 set, where the background colour number is not 0; and
/// it draws everywhere else it covers on screen.
pub proof fn lemma_sprite_palette_and_priority(p: PpuView, s: SpriteAttr, sx: int)
    ensures
        sprite_palette(p, s) == if s.flags / 16 % 2 == 1 { p.regs.obp1 } else { p.regs.obp0 },
        sprite_color(p, s, sx) == 0 ==> !sprite_draws(p, s, sx),
        s.flags >= 128 && p.bg_color_ids[sx] != 0 ==> !sprite_draws(p, s, sx),
        0 <= sx < 160 && (sx + 256 - s.x) % 256 < 8 && sprite_color(p, s, sx) != 0
            && (s.flags < 128 || p.bg_color_ids[sx] == 0) ==> sprite_draws(p, s, sx),
{
    let f = s.flags;
    assert((f & 0x10 != 0) == (f / 16 % 2 == 1)) by (bit_vector);
    assert((f & 0x80 != 0) == (f >= 128)) by (bit_vector);
}

/// How many of the first `n` OAM entries cross the current line.
pub open spec fn crossing_count(p: PpuView, n: nat) -> nat
    decreases n,
{
    if n == 0 {
        0
    } else {
        crossing_count(p, (n - 1) as nat) + if on_sprite_row(p, sprite_at(p, n - 1)) { 1nat } else { 0nat }
    }
}

proof fn lemma_gathered_count(p: PpuView, n: nat)
    ensures
        gathered(p, n).len() == if crossing_count(p, n) < 10 { crossing_count(p, n) } else { 10 },
        forall|i: int| 0 <= i < n && on_sprite_row(p, sprite_at(p, i)) && crossing_count(p, i as nat) < 10
            ==> #[trigger] gathered(p, n).contains((i as u8, sprite_at(p, i))),
    decreases n,
{
    if n > 0 {
        lemma_gathered_count(p, (n - 1) as nat);
        let prev = gathered(p, (n - 1) as nat);
        assert forall|i: int| 0 <= i < n && on_sprite_row(p, sprite_at(p, i)) && crossing_count(p, i as nat) < 10
            implies #[trigger] gathered(p, n).contains((i as u8, sprite_at(p, i))) by {
            if i < n - 1 {
                assert(prev.contains((i as u8, sprite_at(p, i))));
                let k = choose|k: int| 0 <= k < prev.len() && prev[k] == (i as u8, sprite_at(p, i));
                if prev.len() < 10 && on_sprite_row(p, sprite_at(p, n - 1)) {
                    assert(gathered(p, n)[k] == prev[k]);
                }
            } else {
                assert(i == n - 1);
                let g = gathered(p, n);
                assert(g[g.len() - 1] == (i as u8, sprite_at(p, i)));
            }
        }
    }
}

/// A line shows the first ten OAM entries that cross it, in OAM order, or
/// all of them when fewer than ten do: exactly `min(10, crossing)` sprites,
/// and every crossing entry with fewer than ten crossing entries before it
/// is among them.
pub proof fn lemma_ten_sprites_per_line(p: PpuView)
    ensures
        line_sprites(p).len() == if crossing_count(p, 40) < 10 { crossing_count(p, 40) } else { 10 },
        forall|i: int| 0 <= i < 40 && on_sprite_row(p, sprite_at(p, i)) && crossing_count(p, i as nat) < 10
            ==> #[trigger] line_sprites(p).contains((i as u8, sprite_at(p, i))),
{
    lemma_gathered_count(p, 40);
}

/// Sprite priority: where sprites of the line overlap, the one that shows
/// has the smallest X of those that draw there, and among those with that
/// X the smallest OAM index.
pub proof fn lemma_sprite_priority(p: PpuView, sx: int, f: (u8, SpriteAttr))
    requires
        has_top_sprite(p, sx),
        line_sprites(p).contains(f),
        sprite_draws(p, f.1, sx),
    ensures
        top_sprite(p, sx).1.x <= f.1.x,
        top_sprite(p, sx).1.x == f.1.x ==> top_sprite(p, sx).0 <= f.0,
        sprite_draws(p, top_sprite(p, sx).1, sx),
{
    let e = top_sprite(p, sx);
    assert(is_top_sprite(p, e, sx));
    assert(!sprite_before(f, e));
}

/// A line lasts 456 dots: OAM scan 80, drawing 172 and HBlank 204 on the
/// visible lines 0-143, and 456 dots of VBlank on lines 144-153. A step
/// that takes a running PPU past the end of its mode (by less than the
/// next mode lasts) moves it to the next mode with the surplus dots
/// counted there; HBlank then moves to the next line, into VBlank (and the
/// VBlank interrupt) at line 144; VBlank after line 153 starts line 0.
pub proof fn lemma_mode_durations(p: PpuView, cycles: u8)
    requires
        p.regs.lcdc & 0x80 != 0,
        p.was_on_last_step,
        !p.just_enabled,
        p.dot_counter + cycles <= 0xFFFF,
    ensures
        ({
            let d = p.dot_counter + cycles;
            let r = p.step(cycles).0;
            let ev = p.step(cycles).1;
            &&& p.mode == PpuMode::OamScan && d < 80 ==> r.mode == PpuMode::OamScan && r.dot_counter == d
            &&& p.mode == PpuMode::OamScan && 80 <= d < 160 ==> r.mode == PpuMode::Drawing && r.dot_counter == d - 80
            &&& p.mode == PpuMode::Drawing && d < 172 ==> r.mode == PpuMode::Drawing && r.dot_counter == d
            &&& p.mode == PpuMode::Drawing && 172 <= d < 344 ==> r.mode == PpuMode::HBlank && r.dot_counter == d - 172
                && r.regs.ly == p.regs.ly
            &&& p.mode == PpuMode::HBlank && d < 204 ==> r.mode == PpuMode::HBlank && r.dot_counter == d && !ev.vblank
            &&& p.mode == PpuMode::HBlank && 204 <= d < 408 && p.regs.ly < 143 ==> r.mode == PpuMode::OamScan
                && r.dot_counter == d - 204 && r.regs.ly == p.regs.ly + 1 && !ev.vblank
            &&& p.mode == PpuMode::HBlank && 204 <= d < 408 && p.regs.ly == 143 ==> r.mode == PpuMode::VBlank
                && r.dot_counter == d - 204 && r.regs.ly == 144 && ev.vblank && r.ready
            &&& p.mode == PpuMode::VBlank && d < 456 ==> r.mode == PpuMode::VBlank && r.dot_counter == d && r.regs.ly == p.regs.ly
            &&& p.mode == PpuMode::VBlank && 456 <= d < 912 && p.regs.ly < 153 ==> r.mode == PpuMode::VBlank
                && r.dot_counter == d - 456 && r.regs.ly == p.regs.ly + 1
            &&& p.mode == PpuMode::VBlank && 456 <= d < 912 && p.regs.ly == 153 ==> r.mode == PpuMode::OamScan
                && r.dot_counter == d - 456 && r.regs.ly == 0
        }),
{
    let q = p.started(cycles);
    let d = p.dot_counter + cycles;
    assert(q.dot_counter == d);
    reveal_with_fuel(PpuView::run_drawing, 3);
    reveal_with_fuel(PpuView::run_vblank, 3);
    if q.mode == PpuMode::Drawing && 172 <= d < 344 {
        lemma_render_keeps_timing(q);
    }
}

/// LCDC decides the layers of a line: with bit 7 clear nothing is drawn;
/// otherwise bit 0 enables the background, bit 5 the window and bit 1 the
/// sprites, each drawn over the ones before it.
pub proof fn lemma_lcdc_layers(p: PpuView)
    ensures
        p.regs.lcdc & 0x80 == 0 ==> p.render_scanline() == p,
        p.regs.lcdc & 0x80 != 0 && p.regs.lcdc & 0x23 == 0 ==> p.render_scanline() == p,
        p.regs.lcdc & 0x80 != 0 && p.regs.lcdc & 0x23 == 0x01 ==> p.render_scanline() == p.render_background(),
        p.regs.lcdc & 0x80 != 0 && p.regs.lcdc & 0x23 == 0x20 ==> p.render_scanline() == p.render_window(),
        p.regs.lcdc & 0x80 != 0 && p.regs.lcdc & 0x23 == 0x02 ==> p.render_scanline() == p.render_sprites(),
        p.regs.lcdc & 0x80 != 0 && p.regs.lcdc & 0x23 == 0x21 ==> p.render_scanline() == p.render_background().render_window(),
        p.regs.lcdc & 0x80 != 0 && p.regs.lcdc & 0x23 == 0x23
            ==> p.render_scanline() == p.render_background().render_window().render_sprites(),
{
    let l = p.regs.lcdc;
    assert({
        &&& (l & 0x23 == 0 ==> l & 0x01 == 0 && l & 0x20 == 0 && l & 0x02 == 0)
        &&& (l & 0x23 == 0x01 ==> l & 0x01 != 0 && l & 0x20 == 0 && l & 0x02 == 0)
        &&& (l & 0x23 == 0x20 ==> l & 0x01 == 0 && l & 0x20 != 0 && l & 0x02 == 0)
        &&& (l & 0x23 == 0x02 ==> l & 0x01 == 0 && l & 0x20 == 0 && l & 0x02 != 0)
        &&& (l & 0x23 == 0x21 ==> l & 0x01 != 0 && l & 0x20 != 0 && l & 0x02 == 0)
        &&& (l & 0x23 == 0x23 ==> l & 0x01 != 0 && l & 0x20 != 0 && l & 0x02 != 0)
    }) by (bit_vector);
    let b = p.render_background();
    assert(b.regs == p.regs);
    assert(b.render_window().regs == p.regs);
}

/// OAM positions are offset: an entry with Y byte `y` and X byte `x` has
/// its top line at screen line `y - 16` and its left column at `x - 8`
/// (modulo 256), so it crosses line `ly` exactly when `ly - (y - 16)` is
/// below the sprite height and covers column `sx` exactly when
/// `sx - (x - 8)` is below 8.
pub proof fn lemma_sprite_position(p: PpuView, i: int, sx: int)
    requires
        0 <= i < 40,
        p.oam.len() == 160,
        0 <= sx < 160,
    ensures
        on_sprite_row(p, sprite_at(p, i)) == ((p.regs.ly + 16 - p.oam[4 * i] + 512) % 256 < sprite_height(p)),
        ((sx + 256 - sprite_at(p, i).x) % 256 < 8) == ((sx + 8 - p.oam[4 * i + 1] + 512) % 256 < 8),
{
    let y = p.oam[4 * i] as int;
    let x = p.oam[4 * i + 1] as int;
    let ly = p.regs.ly as int;
    let sy = (y + 240) % 256;
    let sxx = (x + 248) % 256;
    assert((ly + 256 - sy) % 256 == (ly + 16 - y + 512) % 256) by {
        if y >= 16 {
            assert(sy == y - 16);
            assert(ly + 256 - sy == (ly + 16 - y + 512) - 256);
            vstd::arithmetic::div_mod::lemma_mod_sub_multiples_vanish(ly + 16 - y + 512, 256);
        } else {
            assert(sy == y + 240);
            assert(ly + 256 - sy == (ly + 16 - y + 512) - 512);
            vstd::arithmetic::div_mod::lemma_mod_sub_multiples_vanish(ly + 16 - y + 512 - 256, 256);
            vstd::arithmetic::div_mod::lemma_mod_sub_multiples_vanish(ly + 16 - y + 512, 256);
        }
    }
    assert((sx + 256 - sxx) % 256 == (sx + 8 - x + 512) % 256) by {
        if x >= 8 {
            assert(sxx == x - 8);
            assert(sx + 256 - sxx == (sx + 8 - x + 512) - 256);
            vstd::arithmetic::div_mod::lemma_mod_sub_multiples_vanish(sx + 8 - x + 512, 256);
        } else {
            assert(sxx == x + 248);
            assert(sx + 256 - sxx == (sx + 8 - x + 512) - 512);
            vstd::arithmetic::div_mod::lemma_mod_sub_multiples_vanish(sx + 8 - x + 512 - 256, 256);
            vstd::arithmetic::div_mod::lemma_mod_sub_multiples_vanish(sx + 8 - x + 512, 256);
        }
    }
}

} // verus!
