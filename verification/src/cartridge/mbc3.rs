use vstd::prelude::*;

verus! {

/// The MBC3 controller: 128 ROM banks, up to eight RAM banks and the
/// clock registers.
pub struct Mbc3 {
    pub rom: Vec<u8>,
    pub ram: Vec<u8>,
    pub ram_timer_enabled: bool,
    pub rom_bank: u8,
    pub ram_bank: u8,
    pub latch_clock: bool,
    pub rom_bank_count: usize,
    pub ram_bank_count: usize,
    pub rtc_s: u8,
    pub rtc_m: u8,
    pub rtc_h: u8,
    pub rtc_dl: u8,
    pub rtc_dh: u8,
    pub latch_prev: u8,
}

/// The state of an MBC3 cartridge as values.
pub struct Mbc3View {
    pub rom: Seq<u8>,
    pub ram: Seq<u8>,
    pub ram_timer_enabled: bool,
    pub rom_bank: u8,
    pub ram_bank: u8,
    pub latch_clock: bool,
    pub rom_bank_count: usize,
    pub ram_bank_count: usize,
    pub rtc_s: u8,
    pub rtc_m: u8,
    pub rtc_h: u8,
    pub rtc_dl: u8,
    pub rtc_dh: u8,
    pub latch_prev: u8,
}

impl View for Mbc3 {
    type V = Mbc3View;

    open spec fn view(&self) -> Mbc3View {
        Mbc3View {
            rom: self.rom@,
            ram: self.ram@,
            ram_timer_enabled: self.ram_timer_enabled,
            rom_bank: self.rom_bank,
            ram_bank: self.ram_bank,
            latch_clock: self.latch_clock,
            rom_bank_count: self.rom_bank_count,
            ram_bank_count: self.ram_bank_count,
            rtc_s: self.rtc_s,
            rtc_m: self.rtc_m,
            rtc_h: self.rtc_h,
            rtc_dl: self.rtc_dl,
            rtc_dh: self.rtc_dh,
            latch_prev: self.latch_prev,
        }
    }
}

impl Mbc3View {
    /// The ROM offset that 0x4000-0x7FFF maps to.
    pub open spec fn high_index(&self, addr: u16) -> int {
        (self.rom_bank as int % self.rom_bank_count as int) * 0x4000 + (addr - 0x4000)
    }

    /// The RAM offset that 0xA000-0xBFFF maps to while a RAM bank is selected.
    pub open spec fn ram_index(&self, addr: u16) -> int {
        self.ram_bank as int * 0x2000 + (addr - 0xA000)
    }

    pub open spec fn readable(&self, addr: u16) -> bool {
        if addr <= 0x3FFF {
            (addr as int) < self.rom.len()
        } else if addr <= 0x7FFF {
            self.rom_bank_count > 0 && self.high_index(addr) < self.rom.len()
        } else if 0xA000 <= addr <= 0xBFFF {
            self.ram_timer_enabled && self.ram_bank <= 7 ==> self.ram_index(addr) < self.ram.len()
        } else {
            false
        }
    }

    /// A read: ROM, or the selected RAM bank or clock register while RAM
    /// and timer are enabled, 0xFF otherwise.
    pub open spec fn read(&self, addr: u16) -> u8 {
        if addr <= 0x3FFF {
            self.rom[addr as int]
        } else if addr <= 0x7FFF {
            self.rom[self.high_index(addr)]
        } else if !self.ram_timer_enabled {
            0xFF
        } else if self.ram_bank <= 7 {
            self.ram[self.ram_index(addr)]
        } else if self.ram_bank == 8 {
            self.rtc_s
        } else if self.ram_bank == 9 {
            self.rtc_m
        } else if self.ram_bank == 10 {
            self.rtc_h
        } else if self.ram_bank == 11 {
            self.rtc_dl
        } else if self.ram_bank == 12 {
            self.rtc_dh
        } else {
            0xFF
        }
    }

    pub open spec fn writable(&self, addr: u16) -> bool {
        0xA000 <= addr <= 0xBFFF && self.ram_timer_enabled && self.ram_bank <= 7
            ==> self.ram_index(addr) < self.ram.len()
    }

    /// A write: RAM and timer enable (0x0000-0x1FFF), ROM bank from the
    /// low seven bits, with bank 0 selecting bank 1 (0x2000-0x3FFF), RAM
    /// bank or clock register
    /// (0x4000-0x5FFF), clock latch on a 0-then-1 sequence (0x6000-0x7FFF),
    /// and the selected RAM bank or clock register (0xA000-0xBFFF).
    pub open spec fn write(&self, addr: u16, value: u8) -> Mbc3View {
        if addr <= 0x1FFF {
            Mbc3View { ram_timer_enabled: value % 16 == 0x0A, ..*self }
        } else if addr <= 0x3FFF {
            Mbc3View { rom_bank: (if value % 128 == 0 { 1 } else { value % 128 }) as u8, ..*self }
        } else if addr <= 0x5FFF {
            Mbc3View { ram_bank: value % 16, ..*self }
        } else if addr <= 0x7FFF {
            Mbc3View {
                latch_clock: if self.latch_prev == 0 && value == 1 { !self.latch_clock } else { self.latch_clock },
                latch_prev: value,
                ..*self
            }
        } else if 0xA000 <= addr <= 0xBFFF && self.ram_timer_enabled {
            if self.ram_bank <= 7 {
                Mbc3View { ram: self.ram.update(self.ram_index(addr), value), ..*self }
            } else if self.ram_bank == 8 {
                Mbc3View { rtc_s: value, ..*self }
            } else if self.ram_bank == 9 {
                Mbc3View { rtc_m: value, ..*self }
            } else if self.ram_bank == 10 {
                Mbc3View { rtc_h: value, ..*self }
            } else if self.ram_bank == 11 {
                Mbc3View { rtc_dl: value, ..*self }
            } else if self.ram_bank == 12 {
                Mbc3View { rtc_dh: value, ..*self }
            } else {
                *self
            }
        } else {
            *self
        }
    }
}

/// With RAM and timer enabled and a RAM bank selected, reading a RAM
/// address gives back the byte last written there and other addresses keep
/// their contents; with a clock register selected, a write to any address
/// of the window sets the register that every address of it reads.
pub proof fn lemma_mbc3_ram_write_read(m: Mbc3View, addr: u16, other: u16, value: u8)
    requires
        m.ram_timer_enabled,
        0xA000 <= addr <= 0xBFFF,
        0xA000 <= other <= 0xBFFF,
        m.writable(addr),
        m.readable(other),
    ensures
        m.ram_bank <= 7 ==> m.write(addr, value).read(addr) == value,
        m.ram_bank <= 7 && other != addr ==> m.write(addr, value).read(other) == m.read(other),
        8 <= m.ram_bank <= 12 ==> m.write(addr, value).read(other) == value,
{
}

/// Selecting a ROM bank takes the low seven bits of the value, a zero
/// selecting bank 1, so that no bank-select write maps bank 0 at
/// 0x4000-0x7FFF; the window then shows that bank (modulo the bank count).
pub proof fn lemma_mbc3_bank_select(m: Mbc3View, addr: u16, value: u8, off: int)
    requires
        0x2000 <= addr <= 0x3FFF,
        0 <= off < 0x4000,
    ensures
        m.write(addr, value).rom_bank == (if value % 128 == 0 { 1 } else { value % 128 }),
        m.write(addr, value).rom_bank != 0,
        m.write(addr, value).read((0x4000 + off) as u16)
            == m.rom[(m.write(addr, value).rom_bank as int % m.rom_bank_count as int) * 0x4000 + off],
        m.write(addr, value).read((0x4000 + off) as u16)
            == m.rom[((if value % 128 == 0 { 1 } else { value % 128 }) as int % m.rom_bank_count as int) * 0x4000 + off],
{
}

impl Mbc3 {
    pub fn new(rom: Vec<u8>, ram_size: usize) -> (m: Self)
        ensures
            m@ == (Mbc3View {
                rom: rom@,
                ram: Seq::new(ram_size as nat, |i: int| 0u8),
                ram_timer_enabled: false,
                rom_bank: 0,
                ram_bank: 0,
                latch_clock: false,
                rom_bank_count: (rom@.len() / 0x4000) as usize,
                ram_bank_count: ram_size / 0x2000,
                rtc_s: 0,
                rtc_m: 0,
                rtc_h: 0,
                rtc_dl: 0,
                rtc_dh: 0,
                latch_prev: 0xFF,
            }),
    {
        let rom_bank_count = rom.len() / 0x4000;
        let ram = vec![0u8; ram_size];
        assert(ram@ =~= Seq::new(ram_size as nat, |i: int| 0u8));
        Self {
            rom,
            ram,
            ram_timer_enabled: false,
            rom_bank: 0,
            ram_bank: 0,
            latch_clock: false,
            rom_bank_count,
            ram_bank_count: ram_size / 0x2000,
            rtc_s: 0,
            rtc_m: 0,
            rtc_h: 0,
            rtc_dl: 0,
            rtc_dh: 0,
            latch_prev: 0xFF,
        }
    }

    pub fn read(&self, addr: u16) -> (v: u8)
        requires
            self@.readable(addr),
        ensures
            v == self@.read(addr),
    {
        if addr <= 0x3FFF {
            self.rom[addr as usize]
        } else if addr <= 0x7FFF {
            let bank = self.rom_bank as usize % self.rom_bank_count;
            assert(bank as int == self.rom_bank as int % self.rom_bank_count as int);
            let n = self.rom.len();
            assert(bank as int * 0x4000 + (addr - 0x4000) < n);
            self.rom[bank * 0x4000 + (addr as usize - 0x4000)]
        } else if self.ram_timer_enabled {
            match self.ram_bank {
                0x00..=0x07 => {
                    let bank = self.ram_bank as usize;
                    self.ram[bank * 0x2000 + (addr as usize - 0xA000)]
                },
                0x08 => self.rtc_s,
                0x09 => self.rtc_m,
                0x0A => self.rtc_h,
                0x0B => self.rtc_dl,
                0x0C => self.rtc_dh,
                _ => 0xFF,
            }
        } else {
            0xFF
        }
    }

    pub fn write(&mut self, addr: u16, value: u8)
        requires
            old(self)@.writable(addr),
        ensures
            final(self)@ == old(self)@.write(addr, value),
    {
        assert(value & 0x0F == value % 16) by { crate::bits::lemma_u8_bits(); }
        match addr {
            0x0000..=0x1FFF => {
                self.ram_timer_enabled = (value & 0x0F) == 0x0A;
            },
            0x2000..=0x3FFF => {
                assert(value & 0x7F == value % 128) by { crate::bits::lemma_u8_bits(); }
                let bank = value & 0x7F;
                self.rom_bank = if bank == 0 { 1 } else { bank };
            },
            0x4000..=0x5FFF => {
                self.ram_bank = value & 0x0F;
            },
            0x6000..=0x7FFF => {
                if self.latch_prev == 0 && value == 1 {
                    self.latch_clock = !self.latch_clock;
                }
                self.latch_prev = value;
            },
            0xA000..=0xBFFF => {
                if self.ram_timer_enabled {
                    match self.ram_bank {
                        0x00..=0x07 => {
                            let bank = self.ram_bank as usize;
                            self.ram.set(bank * 0x2000 + (addr as usize - 0xA000), value);
                        },
                        0x08 => self.rtc_s = value,
                        0x09 => self.rtc_m = value,
                        0x0A => self.rtc_h = value,
                        0x0B => self.rtc_dl = value,
                        0x0C => self.rtc_dh = value,
                        _ => (),
                    }
                }
            },
            _ => (),
        }
    }
}

} // verus!
