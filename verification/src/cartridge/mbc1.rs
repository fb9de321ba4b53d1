use vstd::prelude::*;

verus! {

/// The MBC1 controller: a five-bit ROM bank register, a two-bit register
/// that extends the ROM bank or selects the RAM bank, and a banking mode.
pub struct Mbc1 {
    pub rom: Vec<u8>,
    pub ram: Vec<u8>,
    pub ram_enabled: bool,
    pub rom_bank_low: u8,
    pub bank_hi: u8,
    pub banking_mode: u8,
    pub rom_bank_count: usize,
    pub ram_bank_count: usize,
}

/// The state of an MBC1 cartridge as values.
pub struct Mbc1View {
    pub rom: Seq<u8>,
    pub ram: Seq<u8>,
    pub ram_enabled: bool,
    pub rom_bank_low: u8,
    pub bank_hi: u8,
    pub banking_mode: u8,
    pub rom_bank_count: usize,
    pub ram_bank_count: usize,
}

impl View for Mbc1 {
    type V = Mbc1View;

    open spec fn view(&self) -> Mbc1View {
        Mbc1View {
            rom: self.rom@,
            ram: self.ram@,
            ram_enabled: self.ram_enabled,
            rom_bank_low: self.rom_bank_low,
            bank_hi: self.bank_hi,
            banking_mode: self.banking_mode,
            rom_bank_count: self.rom_bank_count,
            ram_bank_count: self.ram_bank_count,
        }
    }
}

impl Mbc1View {
    /// The bank mapped at 0x0000-0x3FFF: bank 0, or in banking mode 1 on a
    /// ROM of more than 32 banks, the two-bit register shifted up five bits
    /// (modulo the bank count).
    pub open spec fn low_bank(&self) -> int {
        if self.banking_mode == 1 && self.rom_bank_count > 32 {
            (self.bank_hi as int * 32) % self.rom_bank_count as int
        } else {
            0
        }
    }

    /// The bank mapped at 0x4000-0x7FFF: the five-bit register with 0
    /// selecting 1, extended by the two-bit register on a ROM of more than 32
    /// banks, modulo the bank count.
    pub open spec fn high_bank(&self) -> int {
        self.high_bank_number() % self.rom_bank_count as int
    }

    /// The bank number selected for 0x4000-0x7FFF before it wraps at the
    /// bank count.
    pub open spec fn high_bank_number(&self) -> int {
        let low: int = if self.rom_bank_low == 0 { 1 } else { self.rom_bank_low as int };
        if self.rom_bank_count > 32 { low + self.bank_hi as int * 32 } else { low }
    }

    /// The RAM bank: the two-bit register in banking mode 1 (modulo the
    /// bank count, at least 1), bank 0 otherwise.
    pub open spec fn ram_bank(&self) -> int {
        if self.banking_mode == 1 {
            self.bank_hi as int % (if self.ram_bank_count == 0 { 1 } else { self.ram_bank_count as int })
        } else {
            0
        }
    }

    /// The RAM offset that an address in 0xA000-0xBFFF selects.
    pub open spec fn ram_index(&self, addr: u16) -> int {
        self.ram_bank() * 0x2000 + (addr - 0xA000)
    }

    /// Reads are defined for both ROM windows wherever the byte exists, and
    /// for the whole RAM window.
    pub open spec fn readable(&self, addr: u16) -> bool {
        if addr <= 0x3FFF {
            self.low_bank() * 0x4000 + addr < self.rom.len()
        } else if addr <= 0x7FFF {
            self.rom_bank_count > 0 && self.high_bank() * 0x4000 + (addr - 0x4000) < self.rom.len()
        } else {
            0xA000 <= addr <= 0xBFFF
        }
    }

    /// A read: the banked ROM, or the selected RAM byte while the RAM is
    /// enabled and the byte exists, 0xFF otherwise.
    pub open spec fn read(&self, addr: u16) -> u8 {
        if addr <= 0x3FFF {
            self.rom[self.low_bank() * 0x4000 + addr]
        } else if addr <= 0x7FFF {
            self.rom[self.high_bank() * 0x4000 + (addr - 0x4000)]
        } else if self.ram_enabled && self.ram_index(addr) < self.ram.len() {
            self.ram[self.ram_index(addr)]
        } else {
            0xFF
        }
    }

    /// A write: RAM enable (0x0000-0x1FFF, value 0x?A), the five-bit ROM
    /// bank (0x2000-0x3FFF), the two-bit register (0x4000-0x5FFF), the
    /// banking mode (0x6000-0x7FFF), and the selected RAM byte while the RAM
    /// is enabled and the byte exists (0xA000-0xBFFF); other writes are
    /// ignored.
    pub open spec fn write(&self, addr: u16, value: u8) -> Mbc1View {
        if addr <= 0x1FFF {
            Mbc1View { ram_enabled: value % 16 == 0x0A, ..*self }
        } else if addr <= 0x3FFF {
            Mbc1View { rom_bank_low: value % 32, ..*self }
        } else if addr <= 0x5FFF {
            Mbc1View { bank_hi: value % 4, ..*self }
        } else if addr <= 0x7FFF {
            Mbc1View { banking_mode: value % 2, ..*self }
        } else if 0xA000 <= addr <= 0xBFFF && self.ram_enabled && self.ram_index(addr) < self.ram.len() {
            Mbc1View { ram: self.ram.update(self.ram_index(addr), value), ..*self }
        } else {
            *self
        }
    }
}

/// With the RAM enabled, reading a RAM address that exists gives back the
/// byte last written there, and other addresses of the window keep what
/// they read.
pub proof fn lemma_mbc1_ram_write_read(m: Mbc1View, addr: u16, other: u16, value: u8)
    requires
        m.ram_enabled,
        0xA000 <= addr <= 0xBFFF,
        0xA000 <= other <= 0xBFFF,
        m.ram_index(addr) < m.ram.len(),
    ensures
        m.write(addr, value).read(addr) == value,
        other != addr ==> m.write(addr, value).read(other) == m.read(other),
{
}

/// Selecting a ROM bank takes the low five bits of the value, and no
/// bank-select write selects bank 0 for 0x4000-0x7FFF (a zero selects
/// bank 1); the window then shows that bank (modulo the bank count).
pub proof fn lemma_mbc1_bank_select(m: Mbc1View, addr: u16, value: u8, off: int)
    requires
        0x2000 <= addr <= 0x3FFF,
        0 <= off < 0x4000,
    ensures
        m.write(addr, value).rom_bank_low == value % 32,
        m.write(addr, value).high_bank_number() != 0,
        m.write(addr, value).read((0x4000 + off) as u16)
            == m.rom[(m.write(addr, value).high_bank_number() % m.rom_bank_count as int) * 0x4000 + off],
{
}

impl Mbc1 {
    pub fn new(rom: Vec<u8>, ram_size: usize) -> (m: Self)
        ensures
            m@ == (Mbc1View {
                rom: rom@,
                ram: Seq::new(ram_size as nat, |i: int| 0u8),
                ram_enabled: false,
                rom_bank_low: 0,
                bank_hi: 0,
                banking_mode: 0,
                rom_bank_count: (rom@.len() / 0x4000) as usize,
                ram_bank_count: ram_size / 0x2000,
            }),
    {
        let rom_bank_count = rom.len() / 0x4000;
        let ram = vec![0u8; ram_size];
        assert(ram@ =~= Seq::new(ram_size as nat, |i: int| 0u8));
        Self {
            rom,
            ram,
            ram_enabled: false,
            rom_bank_low: 0,
            bank_hi: 0,
            banking_mode: 0,
            rom_bank_count,
            ram_bank_count: ram_size / 0x2000,
        }
    }

    pub fn rom_bank_for_low_window(&self) -> (bank: usize)
        ensures
            bank == self@.low_bank(),
    {
        if self.banking_mode == 1 && self.rom_bank_count > 32 {
            (self.bank_hi as usize * 32) % self.rom_bank_count
        } else {
            0
        }
    }

    pub fn rom_bank_for_high_window(&self) -> (bank: usize)
        requires
            self.rom_bank_count > 0,
        ensures
            bank == self@.high_bank(),
    {
        let mut bank = self.rom_bank_low as usize;
        if bank == 0 {
            bank = 1;
        }
        if self.rom_bank_count > 32 {
            bank = bank + self.bank_hi as usize * 32;
        }
        bank % self.rom_bank_count
    }

    pub fn ram_bank(&self) -> (bank: usize)
        ensures
            bank == self@.ram_bank(),
            bank <= self.bank_hi,
    {
        if self.banking_mode == 1 {
            let count = if self.ram_bank_count == 0 { 1 } else { self.ram_bank_count };
            let hi = self.bank_hi as usize;
            assert(hi % count <= hi) by (nonlinear_arith) requires count > 0;
            hi % count
        } else {
            0
        }
    }

    pub fn read(&self, addr: u16) -> (v: u8)
        requires
            self@.readable(addr),
        ensures
            v == self@.read(addr),
    {
        if addr <= 0x3FFF {
            let bank = self.rom_bank_for_low_window();
            let n = self.rom.len();
            assert(bank as int * 0x4000 + addr < n);
            self.rom[bank * 0x4000 + addr as usize]
        } else if addr <= 0x7FFF {
            let bank = self.rom_bank_for_high_window();
            let n = self.rom.len();
            assert(bank as int * 0x4000 + (addr - 0x4000) < n);
            self.rom[bank * 0x4000 + (addr as usize - 0x4000)]
        } else if self.ram_enabled {
            let idx = self.ram_bank() * 0x2000 + (addr as usize - 0xA000);
            if idx < self.ram.len() {
                self.ram[idx]
            } else {
                0xFF
            }
        } else {
            0xFF
        }
    }

    pub fn write(&mut self, addr: u16, value: u8)
        ensures
            final(self)@ == old(self)@.write(addr, value),
    {
        assert(value & 0x0F == value % 16 && value & 0x1F == value % 32 && value & 0x03 == value % 4
            && value & 0x01 == value % 2) by (bit_vector);
        if addr <= 0x1FFF {
            self.ram_enabled = (value & 0x0F) == 0x0A;
        } else if addr <= 0x3FFF {
            self.rom_bank_low = value & 0x1F;
        } else if addr <= 0x5FFF {
            self.bank_hi = value & 0x03;
        } else if addr <= 0x7FFF {
            self.banking_mode = value & 0x01;
        } else if 0xA000 <= addr && addr <= 0xBFFF && self.ram_enabled {
            let idx = self.ram_bank() * 0x2000 + (addr as usize - 0xA000);
            if idx < self.ram.len() {
                self.ram.set(idx, value);
            }
        }
    }
}

} // verus!
