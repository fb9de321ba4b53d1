use vstd::prelude::*;
use crate::apu::{Apu, PulseChannel, NoiseChannel};
use crate::bus_state::BusState;
use crate::cartridge::Cartridge;
use crate::cartridge::header::CartHeader;
use crate::cartridge::mapper::MapperView;

verus! {

/// The state of the eight buttons (true = pressed).
#[derive(Debug, Clone, Copy, PartialEq, Eq, Structural)]
pub struct Joypad {
    pub a: bool,
    pub b: bool,
    pub select: bool,
    pub start: bool,
    pub up: bool,
    pub down: bool,
    pub left: bool,
    pub right: bool,
}

impl Joypad {
    pub open spec fn released() -> Joypad {
        Joypad {
            a: false,
            b: false,
            select: false,
            start: false,
            up: false,
            down: false,
            left: false,
            right: false,
        }
    }
}

impl Default for Joypad {
    fn default() -> (j: Self)
        ensures
            j == Joypad::released(),
    {
        Joypad {
            a: false,
            b: false,
            select: false,
            start: false,
            up: false,
            down: false,
            left: false,
            right: false,
        }
    }
}

/// The memory bus: cartridge, work and video memory, and the I/O registers.
pub struct Bus {
    pub cart: Cartridge,
    pub apu: Apu,
    pub ie: u8,
    pub iflag: u8,
    pub ly: u8,
    pub lyc: u8,
    pub stat: u8,
    pub div: u16,
    pub tima: u8,
    pub tma: u8,
    pub tac: u8,
    pub timer_acc: u16,
    pub vram: Vec<u8>,
    pub wram: Vec<u8>,
    pub oam: Vec<u8>,
    pub hram: Vec<u8>,
    pub wave_ram: Vec<u8>,
    pub joyp: u8,
    pub lcdc: u8,
    pub bgp: u8,
    pub opb0: u8,
    pub opb1: u8,
    pub scx: u8,
    pub scy: u8,
    pub wx: u8,
    pub wy: u8,
    pub serial_data: u8,
    pub rp: u8,
    pub dma_source: u8,
    pub joypad: Joypad,
    pub frame: u32,
    /// Bytes sent over the serial port (a write of 0x81 to SC sends SB),
    /// waiting for the host to print them.
    pub serial_out: Vec<u8>,
}

/// The state of the bus as values.
pub struct BusView {
    pub header: CartHeader,
    pub mapper: MapperView,
    pub apu: Apu,
    pub ie: u8,
    pub iflag: u8,
    pub ly: u8,
    pub lyc: u8,
    pub stat: u8,
    pub div: u16,
    pub tima: u8,
    pub tma: u8,
    pub tac: u8,
    pub timer_acc: u16,
    pub vram: Seq<u8>,
    pub wram: Seq<u8>,
    pub oam: Seq<u8>,
    pub hram: Seq<u8>,
    pub wave_ram: Seq<u8>,
    pub joyp: u8,
    pub lcdc: u8,
    pub bgp: u8,
    pub opb0: u8,
    pub opb1: u8,
    pub scx: u8,
    pub scy: u8,
    pub wx: u8,
    pub wy: u8,
    pub serial_data: u8,
    pub rp: u8,
    pub dma_source: u8,
    pub joypad: Joypad,
    pub frame: u32,
    pub serial_out: Seq<u8>,
}

impl View for Bus {
    type V = BusView;

    open spec fn view(&self) -> BusView {
        BusView {
            header: self.cart.header,
            mapper: self.cart.mapper@,
            apu: self.apu,
            ie: self.ie,
            iflag: self.iflag,
            ly: self.ly,
            lyc: self.lyc,
            stat: self.stat,
            div: self.div,
            tima: self.tima,
            tma: self.tma,
            tac: self.tac,
            timer_acc: self.timer_acc,
            vram: self.vram@,
            wram: self.wram@,
            oam: self.oam@,
            hram: self.hram@,
            wave_ram: self.wave_ram@,
            joyp: self.joyp,
            lcdc: self.lcdc,
            bgp: self.bgp,
            opb0: self.opb0,
            opb1: self.opb1,
            scx: self.scx,
            scy: self.scy,
            wx: self.wx,
            wy: self.wy,
            serial_data: self.serial_data,
            rp: self.rp,
            dma_source: self.dma_source,
            joypad: self.joypad,
            frame: self.frame,
            serial_out: self.serial_out@,
        }
    }
}

/// The low nibble of JOYP that a button selection pulls low: the d-pad
/// when bit 4 is clear, the buttons when bit 5 is clear.
pub open spec fn pressed_bits(joyp: u8, pad: Joypad) -> u8 {
    let dpad = (joyp & 0x10) == 0;
    let buttons = (joyp & 0x20) == 0;
    (if (dpad && pad.right) || (buttons && pad.a) { 1u8 } else { 0u8 })
        | (if (dpad && pad.left) || (buttons && pad.b) { 2u8 } else { 0u8 })
        | (if (dpad && pad.up) || (buttons && pad.select) { 4u8 } else { 0u8 })
        | (if (dpad && pad.down) || (buttons && pad.start) { 8u8 } else { 0u8 })
}

/// JOYP as read: the selection bits, with each selected pressed button
/// reading as 0 in the low nibble.
pub open spec fn joyp_read(joyp: u8, pad: Joypad) -> u8 {
    (joyp & 0xF0) | (0x0F & !pressed_bits(joyp, pad))
}

/// Whether a read of an I/O register or high RAM (0xFF00-0xFFFF) is defined.
pub open spec fn io_readable(addr: u16) -> bool {
    ||| addr == 0xFF00 || addr == 0xFF01
    ||| 0xFF04 <= addr <= 0xFF07
    ||| addr == 0xFF0F
    ||| 0xFF10 <= addr <= 0xFF12
    ||| addr == 0xFF14 || addr == 0xFF16 || addr == 0xFF17 || addr == 0xFF19
    ||| addr == 0xFF1A || addr == 0xFF1C || addr == 0xFF1E
    ||| 0xFF20 <= addr <= 0xFF26
    ||| 0xFF30 <= addr <= 0xFF3F
    ||| 0xFF40 <= addr <= 0xFF4B
    ||| 0xFF80 <= addr
}

/// Whether a write to an I/O register or high RAM is defined (the DMA
/// register needs its source block to be readable, see `BusView::writable`).
pub open spec fn io_writable(addr: u16) -> bool {
    ||| 0xFF00 <= addr <= 0xFF02
    ||| 0xFF04 <= addr <= 0xFF07
    ||| addr == 0xFF0F
    ||| 0xFF10 <= addr <= 0xFF14
    ||| 0xFF16 <= addr <= 0xFF1E
    ||| 0xFF20 <= addr <= 0xFF26
    ||| 0xFF30 <= addr <= 0xFF3F
    ||| 0xFF40 <= addr <= 0xFF4B
    ||| addr == 0xFF56
    ||| 0xFF75 <= addr <= 0xFF7F
    ||| 0xFF80 <= addr
}

impl BusView {
    pub open spec fn wf(&self) -> bool {
        &&& self.vram.len() == 0x2000
        &&& self.wram.len() == 0x2000
        &&& self.oam.len() == 0xA0
        &&& self.hram.len() == 0x7F
        &&& self.wave_ram.len() == 0x10
    }

    /// Whether reading `addr` is defined: cartridge addresses as the
    /// controller allows, all memories, and the listed I/O registers.
    #[verifier::opaque]
    pub open spec fn readable(&self, addr: u16) -> bool {
        if addr <= 0x7FFF || (0xA000 <= addr <= 0xBFFF) {
            self.mapper.readable(addr)
        } else if addr <= 0xFEFF {
            true
        } else {
            io_readable(addr)
        }
    }

    /// The byte read at `addr`.
    #[verifier::opaque]
    pub open spec fn read(&self, addr: u16) -> u8 {
        if addr <= 0x7FFF || (0xA000 <= addr <= 0xBFFF) {
            self.mapper.read(addr)
        } else if addr <= 0x9FFF {
            self.vram[addr - 0x8000]
        } else if addr <= 0xDFFF {
            self.wram[addr - 0xC000]
        } else if addr <= 0xFDFF {
            self.wram[addr - 0xE000]
        } else if addr <= 0xFE9F {
            self.oam[addr - 0xFE00]
        } else if addr <= 0xFEFF {
            0xFF
        } else if addr == 0xFF00 {
            joyp_read(self.joyp, self.joypad)
        } else if addr == 0xFF01 {
            self.serial_data
        } else if addr == 0xFF04 {
            (self.div / 256) as u8
        } else if addr == 0xFF05 {
            self.tima
        } else if addr == 0xFF06 {
            self.tma
        } else if addr == 0xFF07 {
            self.tac | 0xF8
        } else if addr == 0xFF0F {
            self.iflag
        } else if addr == 0xFF10 {
            self.apu.ch1.sweep
        } else if addr == 0xFF11 {
            self.apu.ch1.duty_len
        } else if addr == 0xFF12 {
            self.apu.ch1.envelope
        } else if addr == 0xFF14 {
            self.apu.ch1.freq_hi_ctrl & 0x40
        } else if addr == 0xFF16 {
            self.apu.ch2.duty_len
        } else if addr == 0xFF17 {
            self.apu.ch2.envelope
        } else if addr == 0xFF19 {
            self.apu.ch2.freq_hi_ctrl & 0x40
        } else if addr == 0xFF1A {
            self.apu.ch3.sweep
        } else if addr == 0xFF1C {
            self.apu.ch3.envelope
        } else if addr == 0xFF1E {
            self.apu.ch3.freq_hi_ctrl & 0x40
        } else if addr == 0xFF20 {
            self.apu.ch4.duty_len
        } else if addr == 0xFF21 {
            self.apu.ch4.envelope
        } else if addr == 0xFF22 {
            self.apu.ch4.freq_rand
        } else if addr == 0xFF23 {
            self.apu.ch4.freq_hi_ctrl & 0x40
        } else if addr == 0xFF24 {
            self.apu.nr50
        } else if addr == 0xFF25 {
            self.apu.nr51
        } else if addr == 0xFF26 {
            self.apu.nr52
        } else if 0xFF30 <= addr <= 0xFF3F {
            self.wave_ram[addr - 0xFF30]
        } else if addr == 0xFF40 {
            self.lcdc
        } else if addr == 0xFF41 {
            (self.stat & 0x7F) | 0x80
        } else if addr == 0xFF42 {
            self.scy
        } else if addr == 0xFF43 {
            self.scx
        } else if addr == 0xFF44 {
            self.ly
        } else if addr == 0xFF45 {
            self.lyc
        } else if addr == 0xFF46 {
            self.dma_source
        } else if addr == 0xFF47 {
            self.bgp
        } else if addr == 0xFF48 {
            self.opb0
        } else if addr == 0xFF49 {
            self.opb1
        } else if addr == 0xFF4A {
            self.wy
        } else if addr == 0xFF4B {
            self.wx
        } else if addr == 0xFFFF {
            self.ie
        } else {
            self.hram[addr - 0xFF80]
        }
    }

    /// Whether the 160 source bytes of an OAM DMA from page `value` can be read.
    pub open spec fn dma_readable(&self, value: u8) -> bool {
        forall|i: int| 0 <= i < 0xA0 ==> #[trigger] self.readable((value as int * 256 + i) as u16)
    }

    /// The OAM that a DMA from page `value` produces.
    pub open spec fn dma_oam(&self, value: u8) -> Seq<u8> {
        Seq::new(0xA0, |i: int| self.read((value as int * 256 + i) as u16))
    }

    /// Whether writing `value` to `addr` is defined.
    #[verifier::opaque]
    pub open spec fn writable(&self, addr: u16, value: u8) -> bool {
        if addr <= 0x7FFF || (0xA000 <= addr <= 0xBFFF) {
            self.mapper.writable(addr)
        } else if addr <= 0xDFFF {
            true
        } else if addr <= 0xFDFF {
            false
        } else if addr <= 0xFEFF {
            true
        } else if addr == 0xFF46 {
            BusView { dma_source: value, ..*self }.dma_readable(value)
        } else {
            io_writable(addr)
        }
    }

    /// The bus after writing `value` to `addr`.
    #[verifier::opaque]
    pub open spec fn write(&self, addr: u16, value: u8) -> BusView {
        if addr <= 0x7FFF || (0xA000 <= addr <= 0xBFFF) {
            BusView { mapper: self.mapper.write(addr, value), ..*self }
        } else if addr <= 0x9FFF {
            BusView { vram: self.vram.update(addr - 0x8000, value), ..*self }
        } else if addr <= 0xDFFF {
            BusView { wram: self.wram.update(addr - 0xC000, value), ..*self }
        } else if addr <= 0xFDFF {
            *self
        } else if addr <= 0xFE9F {
            BusView { oam: self.oam.update(addr - 0xFE00, value), ..*self }
        } else if addr <= 0xFEFF {
            *self
        } else if addr == 0xFF00 {
            BusView { joyp: value & 0xF0, ..*self }
        } else if addr == 0xFF01 {
            BusView { serial_data: value, ..*self }
        } else if addr == 0xFF02 {
            if value == 0x81 {
                BusView { serial_out: self.serial_out.push(self.serial_data), ..*self }
            } else {
                *self
            }
        } else if addr == 0xFF04 {
            BusView { div: 0, timer_acc: 0, ..*self }
        } else if addr == 0xFF05 {
            BusView { tima: value, ..*self }
        } else if addr == 0xFF06 {
            BusView { tma: value, ..*self }
        } else if addr == 0xFF07 {
            BusView { tac: value & 0x07, ..*self }
        } else if addr == 0xFF0F {
            BusView { iflag: value, ..*self }
        } else if 0xFF10 <= addr <= 0xFF26 {
            BusView { apu: apu_write(self.apu, addr, value), ..*self }
        } else if 0xFF30 <= addr <= 0xFF3F {
            BusView { wave_ram: self.wave_ram.update(addr - 0xFF30, value), ..*self }
        } else if addr == 0xFF40 {
            BusView { lcdc: value, ..*self }
        } else if addr == 0xFF41 {
            BusView { stat: value | 0x80, ..*self }
        } else if addr == 0xFF42 {
            BusView { scy: value, ..*self }
        } else if addr == 0xFF43 {
            BusView { scx: value, ..*self }
        } else if addr == 0xFF45 {
            BusView { lyc: value, ..*self }
        } else if addr == 0xFF46 {
            let s = BusView { dma_source: value, ..*self };
            BusView { oam: s.dma_oam(value), ..s }
        } else if addr == 0xFF47 {
            BusView { bgp: value, ..*self }
        } else if addr == 0xFF48 {
            BusView { opb0: value, ..*self }
        } else if addr == 0xFF49 {
            BusView { opb1: value, ..*self }
        } else if addr == 0xFF4A {
            BusView { wy: value, ..*self }
        } else if addr == 0xFF4B {
            BusView { wx: value, ..*self }
        } else if addr == 0xFF56 {
            BusView { rp: value, ..*self }
        } else if 0xFF80 <= addr <= 0xFFFE {
            BusView { hram: self.hram.update(addr - 0xFF80, value), ..*self }
        } else if addr == 0xFFFF {
            BusView { ie: value, ..*self }
        } else {
            *self
        }
    }
}

/// The audio unit after a write to one of its registers (0xFF10-0xFF26).
pub open spec fn apu_write(apu: Apu, addr: u16, value: u8) -> Apu {
    if addr == 0xFF10 {
        Apu { ch1: PulseChannel { sweep: value, ..apu.ch1 }, ..apu }
    } else if addr == 0xFF11 {
        Apu { ch1: PulseChannel { duty_len: value & 0xC0, ..apu.ch1 }, ..apu }
    } else if addr == 0xFF12 {
        Apu { ch1: PulseChannel { envelope: value, ..apu.ch1 }, ..apu }
    } else if addr == 0xFF13 {
        Apu { ch1: PulseChannel { freq_lo: value, ..apu.ch1 }, ..apu }
    } else if addr == 0xFF14 {
        Apu { ch1: PulseChannel { freq_hi_ctrl: value, ..apu.ch1 }, ..apu }
    } else if addr == 0xFF16 {
        Apu { ch2: PulseChannel { duty_len: value, ..apu.ch2 }, ..apu }
    } else if addr == 0xFF17 {
        Apu { ch2: PulseChannel { envelope: value & 0xC0, ..apu.ch2 }, ..apu }
    } else if addr == 0xFF18 {
        Apu { ch2: PulseChannel { freq_lo: value, ..apu.ch2 }, ..apu }
    } else if addr == 0xFF19 {
        Apu { ch2: PulseChannel { freq_hi_ctrl: value, ..apu.ch2 }, ..apu }
    } else if addr == 0xFF1A {
        Apu { ch3: PulseChannel { sweep: value, ..apu.ch3 }, ..apu }
    } else if addr == 0xFF1B {
        Apu { ch3: PulseChannel { duty_len: value, ..apu.ch3 }, ..apu }
    } else if addr == 0xFF1C {
        Apu { ch3: PulseChannel { envelope: value, ..apu.ch3 }, ..apu }
    } else if addr == 0xFF1D {
        Apu { ch3: PulseChannel { freq_lo: value, ..apu.ch3 }, ..apu }
    } else if addr == 0xFF1E {
        Apu { ch3: PulseChannel { freq_hi_ctrl: value, ..apu.ch3 }, ..apu }
    } else if addr == 0xFF20 {
        Apu { ch4: NoiseChannel { duty_len: value, ..apu.ch4 }, ..apu }
    } else if addr == 0xFF21 {
        Apu { ch4: NoiseChannel { envelope: value, ..apu.ch4 }, ..apu }
    } else if addr == 0xFF22 {
        Apu { ch4: NoiseChannel { freq_rand: value, ..apu.ch4 }, ..apu }
    } else if addr == 0xFF23 {
        Apu { ch4: NoiseChannel { freq_hi_ctrl: value, ..apu.ch4 }, ..apu }
    } else if addr == 0xFF24 {
        Apu { nr50: value, ..apu }
    } else if addr == 0xFF25 {
        Apu { nr51: value, ..apu }
    } else if addr == 0xFF26 {
        Apu { nr52: value & 0x80, ..apu }
    } else {
        apu
    }
}

impl Apu {
    /// A write to a sound register (0xFF10-0xFF26).
    pub fn write_apu_reg(&mut self, addr: u16, value: u8)
        requires
            0xFF10 <= addr <= 0xFF26,
        ensures
            *final(self) == apu_write(*old(self), addr, value),
    {
        match addr {
            0xFF10 => self.ch1.sweep = value,
            0xFF11 => self.ch1.duty_len = value & 0xC0,
            0xFF12 => self.ch1.envelope = value,
            0xFF13 => self.ch1.freq_lo = value,
            0xFF14 => self.ch1.freq_hi_ctrl = value,
            0xFF16 => self.ch2.duty_len = value,
            0xFF17 => self.ch2.envelope = value & 0xC0,
            0xFF18 => self.ch2.freq_lo = value,
            0xFF19 => self.ch2.freq_hi_ctrl = value,
            0xFF1A => self.ch3.sweep = value,
            0xFF1B => self.ch3.duty_len = value,
            0xFF1C => self.ch3.envelope = value,
            0xFF1D => self.ch3.freq_lo = value,
            0xFF1E => self.ch3.freq_hi_ctrl = value,
            0xFF20 => self.ch4.duty_len = value,
            0xFF21 => self.ch4.envelope = value,
            0xFF22 => self.ch4.freq_rand = value,
            0xFF23 => self.ch4.freq_hi_ctrl = value,
            0xFF24 => self.nr50 = value,
            0xFF25 => self.nr51 = value,
            0xFF26 => self.nr52 = value & 0x80,
            _ => (),
        }
    }
}

/// Clearing the bits of a JOYP read one selected button at a time gives
/// the read value.
proof fn lemma_joyp_read(joyp: u8, pad: Joypad)
    ensures
        ({
            let mut r = (joyp & 0xF0) | 0x0F;
            let d = joyp & 0x10 == 0;
            let bt = joyp & 0x20 == 0;
            let r1 = if d && pad.right { r & !1u8 } else { r };
            let r2 = if d && pad.left { r1 & !2u8 } else { r1 };
            let r3 = if d && pad.up { r2 & !4u8 } else { r2 };
            let r4 = if d && pad.down { r3 & !8u8 } else { r3 };
            let r5 = if bt && pad.a { r4 & !1u8 } else { r4 };
            let r6 = if bt && pad.b { r5 & !2u8 } else { r5 };
            let r7 = if bt && pad.select { r6 & !4u8 } else { r6 };
            let r8 = if bt && pad.start { r7 & !8u8 } else { r7 };
            r8 == joyp_read(joyp, pad)
        }),
{
    let (a, b, se, st, u, dn, l, rt) = (pad.a, pad.b, pad.select, pad.start, pad.up, pad.down, pad.left, pad.right);
    assert({
        let r = (joyp & 0xF0) | 0x0F;
        let d = joyp & 0x10 == 0;
        let bt = joyp & 0x20 == 0;
        let r1 = if d && rt { r & !1u8 } else { r };
        let r2 = if d && l { r1 & !2u8 } else { r1 };
        let r3 = if d && u { r2 & !4u8 } else { r2 };
        let r4 = if d && dn { r3 & !8u8 } else { r3 };
        let r5 = if bt && a { r4 & !1u8 } else { r4 };
        let r6 = if bt && b { r5 & !2u8 } else { r5 };
        let r7 = if bt && se { r6 & !4u8 } else { r6 };
        let r8 = if bt && st { r7 & !8u8 } else { r7 };
        r8 == (joyp & 0xF0) | (0x0F & !((if (d && rt) || (bt && a) { 1u8 } else { 0u8 })
            | (if (d && l) || (bt && b) { 2u8 } else { 0u8 })
            | (if (d && u) || (bt && se) { 4u8 } else { 0u8 })
            | (if (d && dn) || (bt && st) { 8u8 } else { 0u8 })))
    }) by (bit_vector);
}

} // verus!

verus! {

/// The number of T-cycles per TIMA increment for the clock select bits of TAC.
pub open spec fn timer_threshold(tac: u8) -> u16 {
    let sel = tac % 4;
    if sel == 0 {
        1024
    } else if sel == 1 {
        16
    } else if sel == 2 {
        64
    } else {
        256
    }
}

/// TIMA and whether it overflowed, after `n` increments: on overflow it
/// reloads from TMA.
pub open spec fn tima_after(tima: u8, tma: u8, n: nat) -> (u8, bool)
    decreases n,
{
    if n == 0 {
        (tima, false)
    } else {
        let prev = tima_after(tima, tma, (n - 1) as nat);
        if prev.0 == 0xFF {
            (tma, true)
        } else {
            ((prev.0 + 1) as u8, prev.1)
        }
    }
}

impl BusView {
    /// The bus at power-on with cartridge `cart`.
    pub open spec fn initial(header: CartHeader, mapper: MapperView) -> BusView {
        BusView {
            header: header,
            mapper: mapper,
            apu: Apu::zeroed(),
            ie: 0,
            iflag: 0xE1,
            ly: 0,
            lyc: 0,
            stat: 0x80,
            div: 0,
            tima: 0,
            tma: 0,
            tac: 0,
            timer_acc: 0,
            vram: Seq::new(0x2000, |i: int| 0u8),
            wram: Seq::new(0x2000, |i: int| 0u8),
            oam: Seq::new(0xA0, |i: int| 0u8),
            hram: Seq::new(0x7F, |i: int| 0xFFu8),
            wave_ram: Seq::new(0x10, |i: int| 0u8),
            joyp: 0x3F,
            lcdc: 0,
            bgp: 0xFC,
            opb0: 0xFF,
            opb1: 0xFF,
            scx: 0,
            scy: 0,
            wx: 0,
            wy: 0,
            serial_data: 0,
            rp: 0,
            dma_source: 0,
            joypad: Joypad::released(),
            frame: 0,
            serial_out: Seq::empty(),
        }
    }

    /// Whether running the timer for `cycles` T-cycles is defined: the
    /// accumulator must not overflow.
    pub open spec fn step_timer_ok(&self, cycles: u8) -> bool {
        self.tac & 0x04 != 0 ==> self.timer_acc + cycles <= 0xFFFF
    }

    /// The bus after `cycles` T-cycles of the timer: DIV counts every
    /// cycle; when TAC enables it, TIMA counts once per threshold, reloads
    /// from TMA on overflow and then requests the timer interrupt.
    pub open spec fn step_timer(&self, cycles: u8) -> BusView {
        let div = ((self.div + cycles) % 0x10000) as u16;
        if self.tac & 0x04 == 0 {
            BusView { div: div, ..*self }
        } else {
            let t = timer_threshold(self.tac) as int;
            let total = self.timer_acc + cycles;
            let n = (total / t) as nat;
            let (tima, overflowed) = tima_after(self.tima, self.tma, n);
            BusView {
                div: div,
                timer_acc: (total % t) as u16,
                tima: tima,
                iflag: if overflowed { self.iflag | 0x04 } else { self.iflag },
                ..*self
            }
        }
    }

    /// The saved part of the bus.
    pub open spec fn saved(&self) -> SavedBus {
        SavedBus {
            vram: self.vram,
            wram: self.wram,
            hram: self.hram,
            oam: self.oam,
            joyp: self.joyp,
            iflag: self.iflag,
            ie: self.ie,
            div: self.div,
            tima: self.tima,
            tma: self.tma,
            tac: self.tac,
            lcdc: self.lcdc,
            stat: self.stat,
            scy: self.scy,
            scx: self.scx,
            ly: self.ly,
            lyc: self.lyc,
            bgp: self.bgp,
            opb0: self.opb0,
            opb1: self.opb1,
            wy: self.wy,
            wx: self.wx,
            dma_source: self.dma_source,
            joypad: self.joypad,
        }
    }

    /// The bus with its saved part replaced by `s`.
    pub open spec fn restore(&self, s: SavedBus) -> BusView {
        BusView {
            vram: s.vram,
            wram: s.wram,
            hram: s.hram,
            oam: s.oam,
            joyp: s.joyp,
            iflag: s.iflag,
            ie: s.ie,
            div: s.div,
            tima: s.tima,
            tma: s.tma,
            tac: s.tac,
            lcdc: s.lcdc,
            stat: s.stat,
            scy: s.scy,
            scx: s.scx,
            ly: s.ly,
            lyc: s.lyc,
            bgp: s.bgp,
            opb0: s.opb0,
            opb1: s.opb1,
            wy: s.wy,
            wx: s.wx,
            dma_source: s.dma_source,
            joypad: s.joypad,
            ..*self
        }
    }
}

/// A save state of the bus as values.
pub struct SavedBus {
    pub vram: Seq<u8>,
    pub wram: Seq<u8>,
    pub hram: Seq<u8>,
    pub oam: Seq<u8>,
    pub joyp: u8,
    pub iflag: u8,
    pub ie: u8,
    pub div: u16,
    pub tima: u8,
    pub tma: u8,
    pub tac: u8,
    pub lcdc: u8,
    pub stat: u8,
    pub scy: u8,
    pub scx: u8,
    pub ly: u8,
    pub lyc: u8,
    pub bgp: u8,
    pub opb0: u8,
    pub opb1: u8,
    pub wy: u8,
    pub wx: u8,
    pub dma_source: u8,
    pub joypad: Joypad,
}

impl View for BusState {
    type V = SavedBus;

    open spec fn view(&self) -> SavedBus {
        SavedBus {
            vram: self.vram@,
            wram: self.wram@,
            hram: self.hram@,
            oam: self.oam@,
            joyp: self.joyp,
            iflag: self.iflag,
            ie: self.ie,
            div: self.div,
            tima: self.tima,
            tma: self.tma,
            tac: self.tac,
            lcdc: self.lcdc,
            stat: self.stat,
            scy: self.scy,
            scx: self.scx,
            ly: self.ly,
            lyc: self.lyc,
            bgp: self.bgp,
            opb0: self.opb0,
            opb1: self.opb1,
            wy: self.wy,
            wx: self.wx,
            dma_source: self.dma_source,
            joypad: self.joypad,
        }
    }
}

/// A copy of a byte vector.
fn copy_bytes(v: &Vec<u8>) -> (r: Vec<u8>)
    ensures
        r@ == v@,
{
    let mut r: Vec<u8> = Vec::with_capacity(v.len());
    let mut i: usize = 0;
    while i < v.len()
        invariant
            i <= v@.len(),
            r@ == v@.subrange(0, i as int),
        decreases v@.len() - i,
    {
        r.push(v[i]);
        i += 1;
        assert(r@ =~= v@.subrange(0, i as int));
    }
    assert(r@ =~= v@);
    r
}

impl Bus {
    pub fn new(cart: Cartridge) -> (b: Self)
        ensures
            b@ == BusView::initial(cart.header, cart.mapper@),
            b@.wf(),
    {
        let vram = vec![0u8; 0x2000];
        let wram = vec![0u8; 0x2000];
        let oam = vec![0u8; 0xA0];
        let hram = vec![0xFFu8; 0x7F];
        let wave_ram = vec![0u8; 0x10];
        assert(vram@ =~= Seq::new(0x2000, |i: int| 0u8));
        assert(wram@ =~= Seq::new(0x2000, |i: int| 0u8));
        assert(oam@ =~= Seq::new(0xA0, |i: int| 0u8));
        assert(hram@ =~= Seq::new(0x7F, |i: int| 0xFFu8));
        assert(wave_ram@ =~= Seq::new(0x10, |i: int| 0u8));
        let serial_out: Vec<u8> = Vec::new();
        Self {
            cart,
            apu: Apu::default(),
            ie: 0,
            iflag: 0xE1,
            ly: 0,
            lyc: 0,
            stat: 0x80,
            div: 0x0000,
            tima: 0,
            tma: 0,
            tac: 0,
            timer_acc: 0,
            vram,
            wram,
            oam,
            hram,
            wave_ram,
            joyp: 0x3F,
            lcdc: 0x00,
            bgp: 0xFC,
            opb0: 0xFF,
            opb1: 0xFF,
            scx: 0,
            scy: 0,
            wx: 0,
            wy: 0,
            serial_data: 0,
            rp: 0,
            dma_source: 0,
            joypad: Joypad::default(),
            frame: 0,
            serial_out,
        }
    }

    pub fn get_joyp(&self) -> (r: u8)
        ensures
            r == self.joyp,
    {
        self.joyp
    }

    pub fn inc_frame(&mut self)
        requires
            old(self).frame < u32::MAX,
        ensures
            final(self)@ == (BusView { frame: (old(self).frame + 1) as u32, ..old(self)@ }),
    {
        self.frame += 1
    }

    pub fn get_frame(&self) -> (r: u32)
        ensures
            r == self.frame,
    {
        self.frame
    }

    pub fn get_scy(&self) -> (r: u8)
        ensures
            r == self.scy,
    {
        self.scy
    }

    pub fn get_scx(&self) -> (r: u8)
        ensures
            r == self.scx,
    {
        self.scx
    }

    pub fn get_wy(&self) -> (r: u8)
        ensures
            r == self.wy,
    {
        self.wy
    }

    pub fn get_wx(&self) -> (r: u8)
        ensures
            r == self.wx,
    {
        self.wx
    }

    pub fn get_bgp(&self) -> (r: u8)
        ensures
            r == self.bgp,
    {
        self.bgp
    }

    pub fn get_lcdc(&self) -> (r: u8)
        ensures
            r == self.lcdc,
    {
        self.lcdc
    }

    pub fn get_ly(&self) -> (r: u8)
        ensures
            r == self.ly,
    {
        self.ly
    }

    pub fn set_ly(&mut self, value: u8)
        ensures
            final(self)@ == (BusView { ly: value, ..old(self)@ }),
    {
        self.ly = value
    }

    pub fn get_lyc(&self) -> (r: u8)
        ensures
            r == self.lyc,
    {
        self.lyc
    }

    pub fn set_lyc(&mut self, value: u8)
        ensures
            final(self)@ == (BusView { lyc: value, ..old(self)@ }),
    {
        self.lyc = value
    }

    pub fn get_ie(&self) -> (r: u8)
        ensures
            r == self.ie,
    {
        self.ie
    }

    pub fn get_iflag(&self) -> (r: u8)
        ensures
            r == self.iflag,
    {
        self.iflag
    }

    pub fn get_stat(&self) -> (r: u8)
        ensures
            r == self.stat,
    {
        self.stat
    }

    pub fn set_stat(&mut self, value: u8)
        ensures
            final(self)@ == (BusView { stat: value, ..old(self)@ }),
    {
        self.stat = value
    }

    pub fn get_tac(&self) -> (r: u8)
        ensures
            r == self.tac,
    {
        self.tac
    }

    pub fn get_tima(&self) -> (r: u8)
        ensures
            r == self.tima,
    {
        self.tima
    }

    pub fn set_tima(&mut self, value: u8)
        ensures
            final(self)@ == (BusView { tima: value, ..old(self)@ }),
    {
        self.tima = value
    }

    pub fn get_tma(&self) -> (r: u8)
        ensures
            r == self.tma,
    {
        self.tma
    }

    pub fn set_div(&mut self, value: u16)
        ensures
            final(self)@ == (BusView { div: value, ..old(self)@ }),
    {
        self.div = value
    }

    pub fn get_div(&self) -> (r: u16)
        ensures
            r == self.div,
    {
        self.div
    }

    /// DIV as the CPU sees it: the high byte of the internal counter.
    pub fn read_div(&self) -> (r: u8)
        ensures
            r == self.div / 256,
    {
        let d = self.div;
        assert((d >> 8u16) as u8 == d / 256) by { crate::bits::lemma_u16_bits(); }
        (self.div >> 8) as u8
    }

    /// Sets bit `bit` of IF.
    pub fn request_interrupt(&mut self, bit: u8)
        requires
            bit < 8,
        ensures
            final(self)@ == (BusView { iflag: old(self).iflag | (1u8 << bit), ..old(self)@ }),
    {
        self.iflag |= 1 << bit;
    }

    pub fn read_vram(&self, addr: u16) -> (r: u8)
        requires
            self@.wf(),
            0x8000 <= addr <= 0x9FFF,
        ensures
            r == self.vram@[addr - 0x8000],
    {
        self.vram[(addr - 0x8000) as usize]
    }

    pub fn read_oam(&self, addr: u16) -> (r: u8)
        requires
            self@.wf(),
            0xFE00 <= addr <= 0xFE9F,
        ensures
            r == self.oam@[addr - 0xFE00],
    {
        self.oam[(addr - 0xFE00) as usize]
    }

    pub fn get_obp0(&self) -> (r: u8)
        ensures
            r == self.opb0,
    {
        self.opb0
    }

    pub fn get_obp1(&self) -> (r: u8)
        ensures
            r == self.opb1,
    {
        self.opb1
    }
}

} // verus!

verus! {

/// A byte and a page number address `page * 256 + i`.
proof fn lemma_page_addr(value: u8, i: u16)
    requires
        i < 0xA0,
    ensures
        ((value as u16) << 8u16) + i == value as int * 256 + i,
        (value as int * 256 + i) < 0x10000,
{
    assert(((value as u16) << 8u16) == (value as u16) * 256) by { crate::bits::lemma_u16_bits(); }
}

impl Bus {
    /// Whether `read(addr)` is defined in the current state.
    pub fn can_read(&self, addr: u16) -> (r: bool)
        ensures
            r == self@.readable(addr),
    {
        proof {
            reveal(BusView::read);
            reveal(BusView::readable);
            reveal(BusView::write);
            reveal(BusView::writable);
        }
        if addr <= 0x7FFF || (0xA000 <= addr && addr <= 0xBFFF) {
            match &self.cart.mapper {
                crate::cartridge::mapper::Mapper::RomData(m) => (addr as usize) < m.rom.len(),
                crate::cartridge::mapper::Mapper::Mbc1(m) => {
                    if addr <= 0x3FFF {
                        let bank = m.rom_bank_for_low_window();
                        bank < m.rom.len() / 0x4000 + 1 && bank * 0x4000 + (addr as usize) < m.rom.len()
                    } else if addr <= 0x7FFF {
                        m.rom_bank_count > 0 && {
                            let bank = m.rom_bank_for_high_window();
                            bank < m.rom.len() / 0x4000 + 1
                                && bank * 0x4000 + (addr as usize - 0x4000) < m.rom.len()
                        }
                    } else {
                        true
                    }
                },
                crate::cartridge::mapper::Mapper::Mbc2(m) => {
                    if addr <= 0x3FFF {
                        (addr as usize) < m.rom.len()
                    } else if 0x4000 <= addr && addr <= 0x7FFF {
                        m.rom_bank_count > 0 && {
                            let bank = m.rom_bank_for_high_window();
                            bank < m.rom.len() / 0x4000 + 1
                                && bank * 0x4000 + (addr as usize - 0x4000) < m.rom.len()
                        }
                    } else if 0xA000 <= addr {
                        !m.ram_enabled || ((addr as usize - 0xA000) % 512) < m.ram.len()
                    } else {
                        false
                    }
                },
                crate::cartridge::mapper::Mapper::Mbc3(m) => {
                    if addr <= 0x3FFF {
                        (addr as usize) < m.rom.len()
                    } else if addr <= 0x7FFF {
                        m.rom_bank_count > 0 && {
                            let bank = m.rom_bank as usize % m.rom_bank_count;
                            bank < m.rom.len() / 0x4000 + 1
                                && bank * 0x4000 + (addr as usize - 0x4000) < m.rom.len()
                        }
                    } else {
                        !(m.ram_timer_enabled && m.ram_bank <= 7)
                            || (m.ram_bank as usize) * 0x2000 + (addr as usize - 0xA000) < m.ram.len()
                    }
                },
            }
        } else if addr <= 0xFEFF {
            true
        } else {
            addr == 0xFF00 || addr == 0xFF01 || (0xFF04 <= addr && addr <= 0xFF07) || addr == 0xFF0F
                || (0xFF10 <= addr && addr <= 0xFF12) || addr == 0xFF14 || addr == 0xFF16
                || addr == 0xFF17 || addr == 0xFF19 || addr == 0xFF1A || addr == 0xFF1C
                || addr == 0xFF1E || (0xFF20 <= addr && addr <= 0xFF26)
                || (0xFF30 <= addr && addr <= 0xFF3F) || (0xFF40 <= addr && addr <= 0xFF4B)
                || 0xFF80 <= addr
        }
    }

    /// Reads a byte. Reads outside the mapped areas and of write-only
    /// registers are not defined.
    pub fn read(&self, addr: u16) -> (r: u8)
        requires
            self@.wf(),
            self@.readable(addr),
        ensures
            r == self@.read(addr),
    {
        proof {
            reveal(BusView::read);
            reveal(BusView::readable);
            reveal(BusView::write);
            reveal(BusView::writable);
        }
        match addr {
            0x0000..=0x7FFF => self.cart.mapper.read(addr),
            0xA000..=0xBFFF => self.cart.mapper.read(addr),
            0x8000..=0x9FFF => self.vram[(addr - 0x8000) as usize],
            0xC000..=0xDFFF => self.wram[(addr - 0xC000) as usize],
            0xE000..=0xFDFF => self.wram[(addr - 0xE000) as usize],
            0xFF00 => {
                let mut result = (self.joyp & 0xF0) | 0x0F;
                if self.joyp & 0b0001_0000 == 0 {
                    if self.joypad.right {
                        result &= !0b0001;
                    }
                    if self.joypad.left {
                        result &= !0b0010;
                    }
                    if self.joypad.up {
                        result &= !0b0100;
                    }
                    if self.joypad.down {
                        result &= !0b1000;
                    }
                }
                if self.joyp & 0b0010_0000 == 0 {
                    if self.joypad.a {
                        result &= !0b0001;
                    }
                    if self.joypad.b {
                        result &= !0b0010;
                    }
                    if self.joypad.select {
                        result &= !0b0100;
                    }
                    if self.joypad.start {
                        result &= !0b1000;
                    }
                }
                proof { lemma_joyp_read(self.joyp, self.joypad); }
                result
            },
            0xFF01 => self.serial_data,
            0xFF04 => self.read_div(),
            0xFF05 => self.tima,
            0xFF06 => self.tma,
            0xFF07 => self.tac | 0xF8,
            0xFF0F => self.iflag,
            0xFF10 => self.apu.ch1.sweep,
            0xFF11 => self.apu.ch1.duty_len,
            0xFF12 => self.apu.ch1.envelope,
            0xFF14 => self.apu.ch1.freq_hi_ctrl & 0x40,
            0xFF16 => self.apu.ch2.duty_len,
            0xFF17 => self.apu.ch2.envelope,
            0xFF19 => self.apu.ch2.freq_hi_ctrl & 0x40,
            0xFF1A => self.apu.ch3.sweep,
            0xFF1C => self.apu.ch3.envelope,
            0xFF1E => self.apu.ch3.freq_hi_ctrl & 0x40,
            0xFF20 => self.apu.ch4.duty_len,
            0xFF21 => self.apu.ch4.envelope,
            0xFF22 => self.apu.ch4.freq_rand,
            0xFF23 => self.apu.ch4.freq_hi_ctrl & 0x40,
            0xFF24 => self.apu.nr50,
            0xFF25 => self.apu.nr51,
            0xFF26 => self.apu.nr52,
            0xFF30..=0xFF3F => self.wave_ram[addr as usize - 0xFF30],
            0xFF40 => self.lcdc,
            0xFF41 => (self.stat & 0x7F) | 0x80,
            0xFF42 => self.scy,
            0xFF43 => self.scx,
            0xFF44 => self.ly,
            0xFF45 => self.lyc,
            0xFF47 => self.bgp,
            0xFF48 => self.opb0,
            0xFF49 => self.opb1,
            0xFF4A => self.wy,
            0xFF4B => self.wx,
            0xFF80..=0xFFFE => self.hram[(addr - 0xFF80) as usize],
            0xFE00..=0xFE9F => self.oam[(addr - 0xFE00) as usize],
            0xFEA0..=0xFEFF => 0xFF,
            0xFF46 => self.dma_source,
            0xFFFF => self.ie,
            _ => {
                proof { assert(false); }
                0xFF
            },
        }
    }
}

} // verus!

verus! {

/// Reads do not look at OAM outside 0xFE00-0xFE9F.
proof fn lemma_read_other_oam(v: BusView, o: Seq<u8>, addr: u16)
    ensures
        (BusView { oam: o, ..v }).readable(addr) == v.readable(addr),
        !(0xFE00 <= addr <= 0xFE9F) || o[addr - 0xFE00] == v.oam[addr - 0xFE00]
            ==> (BusView { oam: o, ..v }).read(addr) == v.read(addr),
{
    reveal(BusView::read);
    reveal(BusView::readable);
    reveal(BusView::write);
    reveal(BusView::writable);
}

impl Bus {
    /// Whether `write(addr, value)` is defined in the current state.
    pub fn can_write(&self, addr: u16, value: u8) -> (r: bool)
        requires
            self@.wf(),
        ensures
            r == self@.writable(addr, value),
    {
        proof {
            reveal(BusView::read);
            reveal(BusView::readable);
            reveal(BusView::write);
            reveal(BusView::writable);
        }
        if addr <= 0x7FFF || (0xA000 <= addr && addr <= 0xBFFF) {
            match &self.cart.mapper {
                crate::cartridge::mapper::Mapper::RomData(_) => true,
                crate::cartridge::mapper::Mapper::Mbc1(_) => true,
                crate::cartridge::mapper::Mapper::Mbc2(m) => {
                    !(0xA000 <= addr && m.ram_enabled) || ((addr as usize - 0xA000) % 512) < m.ram.len()
                },
                crate::cartridge::mapper::Mapper::Mbc3(m) => {
                    !(0xA000 <= addr && m.ram_timer_enabled && m.ram_bank <= 7)
                        || (m.ram_bank as usize) * 0x2000 + (addr as usize - 0xA000) < m.ram.len()
                },
            }
        } else if addr <= 0xDFFF {
            true
        } else if addr <= 0xFDFF {
            false
        } else if addr <= 0xFEFF {
            true
        } else if addr == 0xFF46 {
            let src_base = (value as u16) << 8;
            proof { lemma_page_addr(value, 0); }
            let mut i: u16 = 0;
            let ghost s = BusView { dma_source: value, ..self@ };
            while i < 0xA0
                invariant
                    addr == 0xFF46,
                    i <= 0xA0,
                    s == (BusView { dma_source: value, ..self@ }),
                    src_base == value as int * 256,
                    forall|j: int| 0 <= j < i ==> #[trigger] s.readable((value as int * 256 + j) as u16),
                decreases 0xA0 - i,
            {
                proof { lemma_page_addr(value, i); }
                let a = src_base + i;
                proof {
                    reveal(BusView::readable);
                    assert(s.readable(a) == self@.readable(a));
                }
                if !self.can_read(a) {
                    proof {
                        reveal(BusView::writable);
                        let k: int = i as int;
                        assert(!s.readable((value as int * 256 + k) as u16));
                        assert(!s.dma_readable(value));
                    }
                    return false;
                }
                i += 1;
            }
            true
        } else {
            (0xFF00 <= addr && addr <= 0xFF02) || (0xFF04 <= addr && addr <= 0xFF07) || addr == 0xFF0F
                || (0xFF10 <= addr && addr <= 0xFF14) || (0xFF16 <= addr && addr <= 0xFF1E)
                || (0xFF20 <= addr && addr <= 0xFF26) || (0xFF30 <= addr && addr <= 0xFF3F)
                || (0xFF40 <= addr && addr <= 0xFF4B) || addr == 0xFF56
                || (0xFF75 <= addr && addr <= 0xFF7F) || 0xFF80 <= addr
        }
    }

    /// Writes a byte. Writes to unmapped I/O addresses and to echo RAM are
    /// not defined; a write to 0xFF46 copies 160 bytes from page `value`
    /// into OAM.
    pub fn write(&mut self, addr: u16, value: u8)
        requires
            old(self)@.wf(),
            old(self)@.writable(addr, value),
        ensures
            final(self)@ == old(self)@.write(addr, value),
            final(self)@.wf(),
    {
        proof {
            reveal(BusView::read);
            reveal(BusView::readable);
            reveal(BusView::write);
            reveal(BusView::writable);
        }
        match addr {
            0x0000..=0x7FFF => self.cart.mapper.write(addr, value),
            0xA000..=0xBFFF => self.cart.mapper.write(addr, value),
            0x8000..=0x9FFF => self.vram.set((addr - 0x8000) as usize, value),
            0xC000..=0xDFFF => self.wram.set((addr - 0xC000) as usize, value),
            0xFE00..=0xFE9F => self.oam.set((addr - 0xFE00) as usize, value),
            0xFEA0..=0xFEFF => (),
            0xFF46 => self.dma_transfer(value),
            0xFF00..=0xFFFF => self.write_io(addr, value),
            _ => {
                proof { assert(false); }
            },
        }
    }

    /// OAM DMA: sets the source register and copies 160 bytes from page
    /// `value` into OAM.
    fn dma_transfer(&mut self, value: u8)
        requires
            old(self)@.wf(),
            (BusView { dma_source: value, ..old(self)@ }).dma_readable(value),
        ensures
            final(self)@ == old(self)@.write(0xFF46, value),
            final(self)@.wf(),
    {
        proof {
            reveal(BusView::read);
            reveal(BusView::readable);
            reveal(BusView::write);
            reveal(BusView::writable);
        }
        self.dma_source = value;
        let ghost s = self@;
        let src_base = (value as u16) << 8;
        proof { lemma_page_addr(value, 0); }
        let mut i: u16 = 0;
        while i < 0xA0
            invariant
                i <= 0xA0,
                s.wf(),
                s.dma_readable(value),
                src_base == value as int * 256,
                self@ == (BusView { oam: self@.oam, ..s }),
                self@.oam.len() == 0xA0,
                forall|j: int| 0 <= j < i ==> self@.oam[j] == #[trigger] s.dma_oam(value)[j],
                forall|j: int| i <= j < 0xA0 ==> #[trigger] self@.oam[j] == s.oam[j],
            decreases 0xA0 - i,
        {
            proof {
                lemma_page_addr(value, i);
                let a = (value as int * 256 + i) as u16;
                assert(s.readable(a));
                lemma_read_other_oam(s, self@.oam, a);
                if 0xFE00 <= a <= 0xFE9F {
                    assert(a - 0xFE00 == i);
                }
            }
            let data = self.read(src_base + i);
            self.oam.set(i as usize, data);
            i += 1;
        }
        proof {
            assert(self@.oam =~= s.dma_oam(value));
        }
    }

    /// A write to an I/O register or high RAM (0xFF00-0xFFFF, except DMA).
    #[verifier::spinoff_prover]
    #[verifier::rlimit(60)]
    fn write_io(&mut self, addr: u16, value: u8)
        requires
            old(self)@.wf(),
            0xFF00 <= addr,
            addr != 0xFF46,
            io_writable(addr),
        ensures
            final(self)@ == old(self)@.write(addr, value),
            final(self)@.wf(),
    {
        proof {
            reveal(BusView::write);
        }
        match addr {
            0xFF00 => self.joyp = value & 0xF0,
            0xFF01 => self.serial_data = value,
            0xFF02 => {
                if value == 0x81 {
                    self.serial_out.push(self.serial_data);
                }
            },
            0xFF04 => {
                self.div = 0;
                self.timer_acc = 0;
            },
            0xFF05 => self.tima = value,
            0xFF06 => self.tma = value,
            0xFF07 => self.tac = value & 0x07,
            0xFF0F => self.iflag = value,
            0xFF10..=0xFF26 => self.apu.write_apu_reg(addr, value),
            0xFF30..=0xFF3F => self.wave_ram.set(addr as usize - 0xFF30, value),
            0xFF40 => self.lcdc = value,
            0xFF41 => self.stat = value | 0x80,
            0xFF42 => self.scy = value,
            0xFF43 => self.scx = value,
            0xFF44 => (),
            0xFF45 => self.lyc = value,
            0xFF47 => self.bgp = value,
            0xFF48 => self.opb0 = value,
            0xFF49 => self.opb1 = value,
            0xFF56 => self.rp = value,
            0xFF4A => self.wy = value,
            0xFF4B => self.wx = value,
            0xFF80..=0xFFFE => self.hram.set((addr - 0xFF80) as usize, value),
            0xFF75..=0xFF7F => (),
            0xFFFF => self.ie = value,
            _ => {
                proof { assert(false); }
            },
        }
    }
}

} // verus!

verus! {

impl Bus {
    /// Reads a little-endian 16-bit value.
    pub fn read_u16(&self, addr: u16) -> (r: u16)
        requires
            self@.wf(),
            addr < 0xFFFF,
            self@.readable(addr),
            self@.readable((addr + 1) as u16),
        ensures
            r as int == self@.read((addr + 1) as u16) as int * 256 + self@.read(addr) as int,
    {
        let lo = self.read(addr) as u16;
        let hi = self.read(addr + 1) as u16;
        assert((hi << 8u16) | lo == hi * 256 + lo) by { crate::bits::lemma_u16_bits(); }
        (hi << 8) | lo
    }

    /// Writes a little-endian 16-bit value: the low byte first.
    pub fn write_u16(&mut self, addr: u16, value: u16)
        requires
            old(self)@.wf(),
            addr < 0xFFFF,
            old(self)@.writable(addr, (value % 256) as u8),
            old(self)@.write(addr, (value % 256) as u8).writable((addr + 1) as u16, (value / 256) as u8),
        ensures
            final(self)@ == old(self)@.write(addr, (value % 256) as u8).write((addr + 1) as u16, (value / 256) as u8),
            final(self)@.wf(),
    {
        assert((value & 0xFF) as u8 == (value % 256) as u8) by { crate::bits::lemma_u16_bits(); }
        assert((value >> 8u16) as u8 == (value / 256) as u8) by { crate::bits::lemma_u16_bits(); }
        self.write(addr, (value & 0xFF) as u8);
        self.write(addr + 1, (value >> 8) as u8);
    }

    /// Whether `step_timer(cycles)` is defined (see `step_timer_ok`).
    pub fn can_step_timer(&self, cycles: u8) -> (ok: bool)
        ensures
            ok == self@.step_timer_ok(cycles),
    {
        self.tac & 0x04 == 0 || self.timer_acc as u32 + cycles as u32 <= 0xFFFF
    }

    /// Runs the timer for `cycles` T-cycles.
    pub fn step_timer(&mut self, cycles: u8)
        requires
            old(self)@.step_timer_ok(cycles),
        ensures
            final(self)@ == old(self)@.step_timer(cycles),
    {
        self.div = self.div.wrapping_add(cycles as u16);

        if self.tac & 0x04 == 0 {
            return;
        }

        let tac = self.tac;
        assert(tac & 0x03 == tac % 4) by { crate::bits::lemma_u8_bits(); }
        let threshold: u16 = match self.tac & 0x03 {
            0 => 1024,
            1 => 16,
            2 => 64,
            _ => 256,
        };

        self.timer_acc += cycles as u16;
        let ghost total = self.timer_acc as int;
        let ghost mid = self@;
        let ghost mut n: nat = 0;
        while self.timer_acc >= threshold
            invariant
                threshold == timer_threshold(old(self).tac),
                threshold > 0,
                self.timer_acc as int == total - n * threshold,
                self.tima == tima_after(mid.tima, mid.tma, n).0,
                self.iflag == if tima_after(mid.tima, mid.tma, n).1 { mid.iflag | 0x04 } else { mid.iflag },
                self@ == (BusView { timer_acc: self.timer_acc, tima: self.tima, iflag: self.iflag, ..mid }),
            decreases self.timer_acc,
        {
            self.timer_acc -= threshold;
            proof {
                let g = mid.iflag;
                assert((g | 0x04) | 0x04 == g | 0x04) by { crate::bits::lemma_u8_bits(); }
            }
            match self.tima.checked_add(1) {
                Some(t) => self.tima = t,
                None => {
                    self.tima = self.tma;
                    self.iflag |= 0x04;
                },
            }
            proof { n = n + 1; }
        }
        proof {
            let t = threshold as int;
            assert(n == total / t && self.timer_acc == total % t) by (nonlinear_arith)
                requires self.timer_acc as int == total - n * t, 0 <= self.timer_acc < t, t > 0;
        }
    }

    /// The saved part of the bus.
    pub fn to_state(&self) -> (s: BusState)
        ensures
            s@ == self@.saved(),
    {
        BusState {
            vram: copy_bytes(&self.vram),
            wram: copy_bytes(&self.wram),
            hram: copy_bytes(&self.hram),
            oam: copy_bytes(&self.oam),
            joyp: self.joyp,
            iflag: self.iflag,
            ie: self.ie,
            div: self.div,
            tima: self.tima,
            tma: self.tma,
            tac: self.tac,
            lcdc: self.lcdc,
            stat: self.stat,
            scy: self.scy,
            scx: self.scx,
            ly: self.ly,
            lyc: self.lyc,
            bgp: self.bgp,
            opb0: self.opb0,
            opb1: self.opb1,
            wy: self.wy,
            wx: self.wx,
            dma_source: self.dma_source,
            joypad: self.joypad,
        }
    }

    /// Restores the saved part of the bus. The saved memories must have the
    /// bus's sizes.
    pub fn load_state(&mut self, state: BusState)
        requires
            old(self)@.wf(),
            state.wf(),
        ensures
            final(self)@ == old(self)@.restore(state@),
            final(self)@.wf(),
    {
        self.vram = state.vram;
        self.wram = state.wram;
        self.hram = state.hram;
        self.oam = state.oam;
        self.joyp = state.joyp;
        self.iflag = state.iflag;
        self.ie = state.ie;
        self.div = state.div;
        self.tima = state.tima;
        self.tma = state.tma;
        self.tac = state.tac;
        self.lcdc = state.lcdc;
        self.stat = state.stat;
        self.scy = state.scy;
        self.scx = state.scx;
        self.ly = state.ly;
        self.lyc = state.lyc;
        self.bgp = state.bgp;
        self.opb0 = state.opb0;
        self.opb1 = state.opb1;
        self.wy = state.wy;
        self.wx = state.wx;
        self.dma_source = state.dma_source;
        self.joypad = state.joypad;
    }
}

/// Loading a save state gives back exactly the saved part of the bus, and
/// loading a bus's own save state changes nothing.
pub proof fn lemma_save_load_round_trip(b: BusView, other: BusView)
    ensures
        other.restore(b.saved()).saved() == b.saved(),
        b.restore(b.saved()) == b,
{
}

/// TAC keeps to its three bits on every bus reached from power-on: it
/// starts at 0, a write stores only the low three bits of TAC and leaves it
/// otherwise alone, the timer and the other setters leave it alone, a
/// state saved from such a bus restores such a value, and it reads back
/// with the five unused bits set.
pub proof fn lemma_tac_three_bits(b: BusView, addr: u16, value: u8, cycles: u8, s: SavedBus)
    requires
        b.tac <= 7,
        s.tac <= 7,
    ensures
        BusView::initial(b.header, b.mapper).tac == 0,
        b.write(addr, value).tac <= 7,
        addr != 0xFF07 ==> b.write(addr, value).tac == b.tac,
        b.step_timer(cycles).tac == b.tac,
        b.restore(s).tac <= 7,
        b.read(0xFF07) == b.tac | 0xF8,
{
    reveal(BusView::read);
    reveal(BusView::write);
    assert(value & 0x07 == value % 8) by { crate::bits::lemma_u8_bits(); }
}

/// Reading a plain memory address (video, work, echo, object or high RAM)
/// gives back the last byte written to it, and writing one such address
/// leaves the others as they read before.
pub proof fn lemma_ram_write_read(b: BusView, addr: u16, other: u16, value: u8)
    requires
        b.wf(),
        0x8000 <= addr <= 0x9FFF || 0xC000 <= addr <= 0xDFFF || 0xFE00 <= addr <= 0xFE9F
            || 0xFF80 <= addr <= 0xFFFE,
        0x8000 <= other <= 0x9FFF || 0xC000 <= other <= 0xFDFF || 0xFE00 <= other <= 0xFE9F
            || 0xFF80 <= other <= 0xFFFE,
    ensures
        b.writable(addr, value),
        b.write(addr, value).read(addr) == value,
        0xC000 <= addr <= 0xDDFF ==> b.write(addr, value).read((addr + 0x2000) as u16) == value,
        other != addr && !(0xC000 <= addr <= 0xDDFF && other == addr + 0x2000)
            ==> b.write(addr, value).read(other) == b.read(other),
{
    reveal(BusView::read);
    reveal(BusView::readable);
    reveal(BusView::write);
    reveal(BusView::writable);
}

} // verus!

verus! {

/// IE and IF read and write as plain registers.
pub proof fn lemma_interrupt_regs(b: BusView, v: u8)
    ensures
        b.readable(0xFFFF),
        b.read(0xFFFF) == b.ie,
        b.readable(0xFF0F),
        b.read(0xFF0F) == b.iflag,
        b.writable(0xFF0F, v),
        b.write(0xFF0F, v) == (BusView { iflag: v, ..b }),
{
    reveal(BusView::read);
    reveal(BusView::readable);
    reveal(BusView::write);
    reveal(BusView::writable);
}

} // verus!

verus! {

/// Changing IF does not change which reads and writes are defined.
pub proof fn lemma_iflag_keeps_access(b: BusView, f: u8, addr: u16, value: u8)
    ensures
        (BusView { iflag: f, ..b }).readable(addr) == b.readable(addr),
        (BusView { iflag: f, ..b }).writable(addr, value) == b.writable(addr, value),
{
    reveal(BusView::readable);
    reveal(BusView::writable);
    if addr == 0xFF46 {
        let s1 = BusView { dma_source: value, ..BusView { iflag: f, ..b } };
        let s = BusView { dma_source: value, ..b };
        if s.dma_readable(value) {
            assert forall|i: int| 0 <= i < 0xA0 implies
                #[trigger] s1.readable((value as int * 256 + i) as u16) by {
                assert(s.readable((value as int * 256 + i) as u16));
            }
        }
        if s1.dma_readable(value) {
            assert forall|i: int| 0 <= i < 0xA0 implies
                #[trigger] s.readable((value as int * 256 + i) as u16) by {
                assert(s1.readable((value as int * 256 + i) as u16));
            }
        }
    }
}

/// A write that is defined does not change whether a write to the address
/// just below it is defined (stack pushes write downwards).
pub proof fn lemma_write_keeps_writable_below(b: BusView, a1: u16, v1: u8, v2: u8)
    requires
        b.wf(),
        b.writable(a1, v1),
    ensures
        b.write(a1, v1).writable(((a1 + 0xFFFF) % 0x10000) as u16, v2)
            == b.writable(((a1 + 0xFFFF) % 0x10000) as u16, v2),
{
    reveal(BusView::readable);
    reveal(BusView::writable);
    reveal(BusView::write);
    let a2 = ((a1 + 0xFFFF) % 0x10000) as u16;
    let b2 = b.write(a1, v1);
    if a2 == 0xFF46 {
        assert(a1 == 0xFF47);
        assert(b2 == (BusView { bgp: v1, ..b }));
        let s1 = BusView { dma_source: v2, ..b2 };
        let s = BusView { dma_source: v2, ..b };
        if s.dma_readable(v2) {
            assert forall|i: int| 0 <= i < 0xA0 implies
                #[trigger] s1.readable((v2 as int * 256 + i) as u16) by {
                assert(s.readable((v2 as int * 256 + i) as u16));
            }
        }
        if s1.dma_readable(v2) {
            assert forall|i: int| 0 <= i < 0xA0 implies
                #[trigger] s.readable((v2 as int * 256 + i) as u16) by {
                assert(s1.readable((v2 as int * 256 + i) as u16));
            }
        }
    } else if a2 <= 0x7FFF || (0xA000 <= a2 <= 0xBFFF) {
        if a1 <= 0x7FFF || (0xA000 <= a1 <= 0xBFFF) {
            crate::cartridge::mapper::lemma_write_keeps_writable_below(b.mapper, a1, v1);
            assert(b2.mapper == b.mapper.write(a1, v1));
        } else {
            assert(b2.mapper == b.mapper);
        }
    }
}

} // verus!

verus! {

/// Counting TIMA up `n` times without passing 0xFF adds `n` and does not
/// overflow.
proof fn lemma_tima_counts(tima: u8, tma: u8, n: nat)
    requires
        tima + n <= 255,
    ensures
        tima_after(tima, tma, n) == ((tima + n) as u8, false),
    decreases n,
{
    if n > 0 {
        lemma_tima_counts(tima, tma, (n - 1) as nat);
    }
}

/// With TAC's enable bit set, TIMA counts once per 1024, 16, 64 or 256
/// T-cycles for clock selects 0, 1, 2 and 3: from accumulator `acc`,
/// running `c` cycles adds `(acc + c) / period` to TIMA (while it does not
/// pass 0xFF, so no interrupt is requested) and keeps the remainder in the
/// accumulator.
pub proof fn lemma_timer_periods(b: BusView, cycles: u8)
    requires
        b.tac & 0x04 != 0,
    ensures
        ({
            let total = b.timer_acc + cycles;
            let after = b.step_timer(cycles);
            &&& b.tac % 4 == 0 && b.tima + total / 1024 <= 255 ==> after.tima == b.tima + total / 1024
                && after.timer_acc == total % 1024 && after.iflag == b.iflag
            &&& b.tac % 4 == 1 && b.tima + total / 16 <= 255 ==> after.tima == b.tima + total / 16
                && after.timer_acc == total % 16 && after.iflag == b.iflag
            &&& b.tac % 4 == 2 && b.tima + total / 64 <= 255 ==> after.tima == b.tima + total / 64
                && after.timer_acc == total % 64 && after.iflag == b.iflag
            &&& b.tac % 4 == 3 && b.tima + total / 256 <= 255 ==> after.tima == b.tima + total / 256
                && after.timer_acc == total % 256 && after.iflag == b.iflag
        }),
{
    let total = b.timer_acc + cycles;
    let t = timer_threshold(b.tac) as int;
    if b.tima + total / t <= 255 {
        lemma_tima_counts(b.tima, b.tma, (total / t) as nat);
    }
}

/// When TIMA is at 0xFF and the cycles complete exactly one more tick, it
/// reloads from TMA and the timer interrupt is requested (IF bit 2), the
/// other request bits kept.
pub proof fn lemma_timer_overflow(b: BusView, cycles: u8)
    requires
        b.tac & 0x04 != 0,
        b.tima == 0xFF,
        (b.timer_acc + cycles) / (timer_threshold(b.tac) as int) == 1,
    ensures
        b.step_timer(cycles).tima == b.tma,
        b.step_timer(cycles).iflag & 0x04 != 0,
        b.step_timer(cycles).iflag & !0x04u8 == b.iflag & !0x04u8,
{
    reveal_with_fuel(tima_after, 2);
    let g = b.iflag;
    assert((g | 0x04) & 0x04 != 0 && (g | 0x04) & !0x04u8 == g & !0x04u8) by (bit_vector);
}

/// Counting TIMA up `n1` and then `n2` times is counting it up `n1 + n2`
/// times; it overflowed if either part did.
proof fn lemma_tima_after_add(tima: u8, tma: u8, n1: nat, n2: nat)
    ensures
        tima_after(tima, tma, n1 + n2) == (
            tima_after(tima_after(tima, tma, n1).0, tma, n2).0,
            tima_after(tima, tma, n1).1 || tima_after(tima_after(tima, tma, n1).0, tma, n2).1,
        ),
    decreases n2,
{
    if n2 > 0 {
        lemma_tima_after_add(tima, tma, n1, (n2 - 1) as nat);
        assert((n1 + n2 - 1) as nat == n1 + (n2 - 1) as nat);
    }
}

/// Running the timer for `c1` and then `c2` T-cycles is running it for
/// `c1 + c2`: DIV, the accumulator, TIMA and the interrupt request come
/// out the same.
pub proof fn lemma_timer_steps_add(b: BusView, c1: u8, c2: u8)
    requires
        c1 + c2 <= 255,
    ensures
        b.step_timer(c1).step_timer(c2) == b.step_timer((c1 + c2) as u8),
{
    let b1 = b.step_timer(c1);
    let c = (c1 + c2) as u8;
    assert(((b.div + c1) % 0x10000 + c2) % 0x10000 == (b.div + c) % 0x10000) by {
        vstd::arithmetic::div_mod::lemma_add_mod_noop(b.div + c1, c2 as int, 0x10000);
        vstd::arithmetic::div_mod::lemma_mod_twice(c2 as int, 0x10000);
        vstd::arithmetic::div_mod::lemma_small_mod(c2 as nat, 0x10000);
    }
    if b.tac & 0x04 != 0 {
        let t = timer_threshold(b.tac) as int;
        assert(b1.tac == b.tac && b1.tma == b.tma);
        let total1 = b.timer_acc + c1;
        let n1 = total1 / t;
        let acc1 = total1 % t;
        vstd::arithmetic::div_mod::lemma_fundamental_div_mod(total1, t);
        let total2 = acc1 + c2;
        let n2 = total2 / t;
        let r2 = total2 % t;
        vstd::arithmetic::div_mod::lemma_fundamental_div_mod(total2, t);
        assert(b.timer_acc + c == (n1 + n2) * t + r2) by (nonlinear_arith)
            requires total1 == t * n1 + acc1, total2 == t * n2 + r2, total2 == acc1 + c2,
                total1 == b.timer_acc + c1, c == c1 + c2;
        vstd::arithmetic::div_mod::lemma_fundamental_div_mod_converse(b.timer_acc + c, t, n1 + n2, r2);
        assert(n1 >= 0 && n2 >= 0) by (nonlinear_arith)
            requires total1 >= 0, total2 >= 0, t > 0, n1 == total1 / t, n2 == total2 / t;
        lemma_tima_after_add(b.tima, b.tma, n1 as nat, n2 as nat);
        assert((n1 + n2) as nat == n1 as nat + n2 as nat);
        let g = b.iflag;
        assert((g | 0x04) | 0x04 == g | 0x04) by { crate::bits::lemma_u8_bits(); }
    }
}

/// Reading JOYP (0xFF00): the selection bits read back as written; with
/// the d-pad selected (bit 4 clear, bit 5 set) bits 0-3 read 0 exactly
/// for Right, Left, Up and Down held; with the buttons selected (bit 5
/// clear, bit 4 set) for A, B, Select and Start; with neither selected
/// they read 1.
pub proof fn lemma_joypad_read(b: BusView)
    ensures
        ({
            let j = b.joyp;
            let pad = b.joypad;
            let r = b.read(0xFF00);
            &&& r & 0xF0 == j & 0xF0
            &&& j & 0x30 == 0x20 ==> {
                &&& (r & 0x01 == 0) == pad.right
                &&& (r & 0x02 == 0) == pad.left
                &&& (r & 0x04 == 0) == pad.up
                &&& (r & 0x08 == 0) == pad.down
            }
            &&& j & 0x30 == 0x10 ==> {
                &&& (r & 0x01 == 0) == pad.a
                &&& (r & 0x02 == 0) == pad.b
                &&& (r & 0x04 == 0) == pad.select
                &&& (r & 0x08 == 0) == pad.start
            }
            &&& j & 0x30 == 0x30 ==> r & 0x0F == 0x0F
        }),
{
    reveal(BusView::read);
    let j = b.joyp;
    let pad = b.joypad;
    let dpad = (j & 0x10) == 0;
    let buttons = (j & 0x20) == 0;
    let b0: u8 = if (dpad && pad.right) || (buttons && pad.a) { 1u8 } else { 0u8 };
    let b1: u8 = if (dpad && pad.left) || (buttons && pad.b) { 2u8 } else { 0u8 };
    let b2: u8 = if (dpad && pad.up) || (buttons && pad.select) { 4u8 } else { 0u8 };
    let b3: u8 = if (dpad && pad.down) || (buttons && pad.start) { 8u8 } else { 0u8 };
    let r = b.read(0xFF00);
    assert(r == (j & 0xF0) | (0x0F & !(b0 | b1 | b2 | b3)));
    assert({
        &&& r & 0xF0 == j & 0xF0
        &&& (r & 0x01 == 0) == (b0 == 1)
        &&& (r & 0x02 == 0) == (b1 == 2)
        &&& (r & 0x04 == 0) == (b2 == 4)
        &&& (r & 0x08 == 0) == (b3 == 8)
        &&& (j & 0x30 == 0x20 ==> (j & 0x10 == 0 && j & 0x20 != 0))
        &&& (j & 0x30 == 0x10 ==> (j & 0x20 == 0 && j & 0x10 != 0))
        &&& (j & 0x30 == 0x30 ==> (j & 0x20 != 0 && j & 0x10 != 0))
    }) by (bit_vector)
        requires
            r == (j & 0xF0) | (0x0F & !(b0 | b1 | b2 | b3)),
            b0 == 0 || b0 == 1, b1 == 0 || b1 == 2, b2 == 0 || b2 == 4, b3 == 0 || b3 == 8;
    if j & 0x30 == 0x30 {
        assert(b0 == 0 && b1 == 0 && b2 == 0 && b3 == 0);
        assert(r & 0x0F == 0x0F) by (bit_vector) requires r == (j & 0xF0) | (0x0F & !(0u8 | 0u8 | 0u8 | 0u8));
    }
}

/// Echo RAM: 0xE000-0xFDFF reads the work RAM 0x2000 bytes below it.
pub proof fn lemma_echo_ram(b: BusView, addr: u16)
    requires
        0xE000 <= addr <= 0xFDFF,
    ensures
        b.read(addr) == b.read((addr - 0x2000) as u16),
{
    reveal(BusView::read);
}

/// The divider counts every T-cycle, and DIV (0xFF04) reads its high byte,
/// so it advances once per 256 cycles; with TAC's enable bit clear, TIMA,
/// the accumulator and the interrupt requests stay as they were.
pub proof fn lemma_divider_and_disabled_timer(b: BusView, cycles: u8)
    ensures
        b.step_timer(cycles).div as int == (b.div + cycles) % 0x10000,
        b.read(0xFF04) == b.div / 256,
        b.tac & 0x04 == 0 ==> {
            &&& b.step_timer(cycles).tima == b.tima
            &&& b.step_timer(cycles).timer_acc == b.timer_acc
            &&& b.step_timer(cycles).iflag == b.iflag
        },
{
    reveal(BusView::read);
}

} // verus!
