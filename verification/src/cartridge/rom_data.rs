use vstd::prelude::*;

verus! {

/// A cartridge without a memory bank controller: plain ROM.
pub struct RomData {
    pub rom: Vec<u8>,
}

impl RomData {
    pub fn new(rom: Vec<u8>) -> (r: Self)
        ensures
            r.rom@ == rom@,
    {
        Self { rom }
    }

    pub fn read(&self, addr: u16) -> (v: u8)
        requires
            (addr as int) < self.rom@.len(),
        ensures
            v == self.rom@[addr as int],
    {
        self.rom[addr as usize]
    }

    /// Writes to a plain ROM cartridge are ignored.
    pub fn write(&mut self, addr: u16, value: u8)
        ensures
            final(self).rom@ == old(self).rom@,
    {
    }
}

} // verus!
