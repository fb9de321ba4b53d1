use vstd::prelude::*;

verus! {

/// The MBC2 controller: 16 switchable ROM banks and 512 half-bytes of RAM.
pub struct Mbc2 {
    pub rom: Vec<u8>,
    pub ram: Vec<u8>,
    pub ram_enabled: bool,
    pub rom_bank: u8,
    pub rom_bank_count: usize,
}

/// The state of an MBC2 cartridge as values.
pub struct Mbc2View {
    pub rom: Seq<u8>,
    pub ram: Seq<u8>,
    pub ram_enabled: bool,
    pub rom_bank: u8,
    pub rom_bank_count: usize,
}

impl View for Mbc2 {
    type V = Mbc2View;

    open spec fn view(&self) -> Mbc2View {
        Mbc2View {
            rom: self.rom@,
            ram: self.ram@,
            ram_enabled: self.ram_enabled,
            rom_bank: self.rom_bank,
            rom_bank_count: self.rom_bank_count,
        }
    }
}

impl Mbc2View {
    /// The bank mapped at 0x4000-0x7FFF: bank 0 selects bank 1, and the
    /// number wraps at the bank count.
    pub open spec fn high_bank(&self) -> int {
        (if self.rom_bank == 0 { 1 } else { self.rom_bank as int }) % self.rom_bank_count as int
    }

    /// The RAM cell selected by an address in 0xA000-0xBFFF (the RAM is
    /// mirrored every 512 bytes).
    pub open spec fn ram_index(addr: u16) -> int {
        (addr - 0xA000) % 512
    }

    /// Reads are defined for the fixed ROM at 0x0000-0x3FFF, the banked
    /// ROM and the RAM window, wherever the cell exists.
    pub open spec fn readable(&self, addr: u16) -> bool {
        if addr <= 0x3FFF {
            (addr as int) < self.rom.len()
        } else if 0x4000 <= addr <= 0x7FFF {
            self.rom_bank_count > 0
                && self.high_bank() * 0x4000 + (addr - 0x4000) < self.rom.len()
        } else if 0xA000 <= addr <= 0xBFFF {
            self.ram_enabled ==> Self::ram_index(addr) < self.ram.len()
        } else {
            false
        }
    }

    /// A read: ROM bytes, or a RAM half-byte with the high nibble set, or
    /// 0x0F while the RAM is disabled.
    pub open spec fn read(&self, addr: u16) -> u8 {
        if addr <= 0x3FFF {
            self.rom[addr as int]
        } else if 0x4000 <= addr <= 0x7FFF {
            self.rom[self.high_bank() * 0x4000 + (addr - 0x4000)]
        } else if self.ram_enabled {
            self.ram[Self::ram_index(addr)] | 0xF0
        } else {
            0x0F
        }
    }

    pub open spec fn writable(&self, addr: u16) -> bool {
        0xA000 <= addr <= 0xBFFF && self.ram_enabled ==> Self::ram_index(addr) < self.ram.len()
    }

    /// Writes below 0x2000 enable the RAM (address bit 8 clear, value
    /// 0x?A) or select the ROM bank (bit 8 set); RAM writes keep the low
    /// nibble; other writes are ignored.
    pub open spec fn write(&self, addr: u16, value: u8) -> Mbc2View {
        if addr <= 0x1FFF {
            if (addr / 256) % 2 == 0 {
                Mbc2View { ram_enabled: value % 16 == 0x0A, ..*self }
            } else {
                Mbc2View { rom_bank: value % 16, ..*self }
            }
        } else if 0xA000 <= addr <= 0xBFFF && self.ram_enabled {
            Mbc2View { ram: self.ram.update(Self::ram_index(addr), value % 16), ..*self }
        } else {
            *self
        }
    }
}

/// With the RAM enabled, reading a RAM address gives back the low nibble
/// last written there (the high nibble reads as set), and RAM cells that
/// the address does not select keep their contents.
pub proof fn lemma_mbc2_ram_write_read(m: Mbc2View, addr: u16, other: u16, value: u8)
    requires
        m.ram_enabled,
        0xA000 <= addr <= 0xBFFF,
        0xA000 <= other <= 0xBFFF,
        m.writable(addr),
        m.readable(other),
    ensures
        m.write(addr, value).read(addr) == (value % 16) | 0xF0,
        Mbc2View::ram_index(other) != Mbc2View::ram_index(addr) ==> m.write(addr, value).read(other) == m.read(other),
{
}

/// Below 0x2000, a write with address bit 8 set selects the ROM bank from
/// the value's low nibble (a zero selects bank 1, modulo the bank count,
/// for 0x4000-0x7FFF) and leaves the RAM enable alone; with bit 8 clear it
/// enables the RAM exactly for a value with low nibble 0xA and leaves the
/// bank alone.
pub proof fn lemma_mbc2_control_writes(m: Mbc2View, addr: u16, value: u8, off: int)
    requires
        addr <= 0x1FFF,
        0 <= off < 0x4000,
    ensures
        (addr / 256) % 2 == 1 ==> {
            &&& m.write(addr, value).rom_bank == value % 16
            &&& m.write(addr, value).ram_enabled == m.ram_enabled
            &&& m.write(addr, value).read((0x4000 + off) as u16)
                == m.rom[((if value % 16 == 0 { 1 } else { value % 16 }) as int % m.rom_bank_count as int) * 0x4000 + off]
        },
        (addr / 256) % 2 == 0 ==> {
            &&& m.write(addr, value).ram_enabled == (value % 16 == 10)
            &&& m.write(addr, value).rom_bank == m.rom_bank
        },
{
}

/// The RAM index of a window address is its offset masked to nine bits.
proof fn lemma_ram_index(addr: u16)
    requires
        0xA000 <= addr <= 0xBFFF,
    ensures
        (((addr - 0xA000) as usize) & 0x1FF) as int == Mbc2View::ram_index(addr),
{
    let a = (addr - 0xA000) as u16;
    assert((a as usize) & 0x1FF == (a % 512) as usize) by (bit_vector);
}

impl Mbc2 {
    pub fn new(rom: Vec<u8>) -> (m: Self)
        ensures
            m@ == (Mbc2View {
                rom: rom@,
                ram: Seq::new(512, |i: int| 0u8),
                ram_enabled: false,
                rom_bank: 1,
                rom_bank_count: (rom@.len() / 0x4000) as usize,
            }),
    {
        let rom_bank_count = rom.len() / 0x4000;
        let ram = vec![0u8; 512];
        assert(ram@ =~= Seq::new(512, |i: int| 0u8));
        Self { rom, ram, ram_enabled: false, rom_bank: 1, rom_bank_count }
    }

    pub fn rom_bank_for_high_window(&self) -> (bank: usize)
        requires
            self.rom_bank_count > 0,
        ensures
            bank == self@.high_bank(),
    {
        let mut bank = self.rom_bank as usize;
        if bank == 0 {
            bank = 1;
        }
        bank % self.rom_bank_count
    }

    pub fn read(&self, addr: u16) -> (v: u8)
        requires
            self@.readable(addr),
        ensures
            v == self@.read(addr),
    {
        if addr <= 0x3FFF {
            self.rom[addr as usize]
        } else if 0x4000 <= addr && addr <= 0x7FFF {
            let bank = self.rom_bank_for_high_window();
            let n = self.rom.len();
            assert(bank as int * 0x4000 + (addr - 0x4000) < n);
            self.rom[bank * 0x4000 + (addr as usize - 0x4000)]
        } else if self.ram_enabled {
            proof { lemma_ram_index(addr); }
            let idx = (addr as usize - 0xA000) & 0x1FF;
            self.ram[idx] | 0xF0
        } else {
            0x0F
        }
    }

    pub fn write(&mut self, addr: u16, value: u8)
        requires
            old(self)@.writable(addr),
        ensures
            final(self)@ == old(self)@.write(addr, value),
    {
        assert(addr & 0x0100 == 0 <==> (addr / 256) % 2 == 0) by (bit_vector);
        assert(value & 0x0F == value % 16) by { crate::bits::lemma_u8_bits(); }
        if addr <= 0x1FFF {
            if addr & 0x0100 == 0 {
                self.ram_enabled = (value & 0x0F) == 0x0A;
            } else {
                self.rom_bank = value & 0x0F;
            }
        } else if 0xA000 <= addr && addr <= 0xBFFF {
            if self.ram_enabled {
                proof { lemma_ram_index(addr); }
                let idx = (addr as usize - 0xA000) & 0x1FF;
                self.ram.set(idx, value & 0x0F);
            }
        }
    }
}

} // verus!
