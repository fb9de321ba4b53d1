use vstd::prelude::*;
use crate::cartridge::rom_data::RomData;
use crate::cartridge::mbc1::{Mbc1, Mbc1View};
use crate::cartridge::mbc2::{Mbc2, Mbc2View};
use crate::cartridge::mbc3::{Mbc3, Mbc3View};

verus! {

/// The memory bank controller of a cartridge.
pub enum Mapper {
    RomData(RomData),
    Mbc1(Mbc1),
    Mbc2(Mbc2),
    Mbc3(Mbc3),
}

/// The state of a memory bank controller as values.
pub enum MapperView {
    RomData(Seq<u8>),
    Mbc1(Mbc1View),
    Mbc2(Mbc2View),
    Mbc3(Mbc3View),
}

impl View for Mapper {
    type V = MapperView;

    open spec fn view(&self) -> MapperView {
        match self {
            Mapper::RomData(m) => MapperView::RomData(m.rom@),
            Mapper::Mbc1(m) => MapperView::Mbc1(m@),
            Mapper::Mbc2(m) => MapperView::Mbc2(m@),
            Mapper::Mbc3(m) => MapperView::Mbc3(m@),
        }
    }
}

impl MapperView {
    pub open spec fn readable(&self, addr: u16) -> bool {
        match self {
            MapperView::RomData(rom) => (addr as int) < rom.len(),
            MapperView::Mbc1(m) => m.readable(addr),
            MapperView::Mbc2(m) => m.readable(addr),
            MapperView::Mbc3(m) => m.readable(addr),
        }
    }

    pub open spec fn read(&self, addr: u16) -> u8 {
        match self {
            MapperView::RomData(rom) => rom[addr as int],
            MapperView::Mbc1(m) => m.read(addr),
            MapperView::Mbc2(m) => m.read(addr),
            MapperView::Mbc3(m) => m.read(addr),
        }
    }

    pub open spec fn writable(&self, addr: u16) -> bool {
        match self {
            MapperView::RomData(_) => true,
            MapperView::Mbc1(_) => true,
            MapperView::Mbc2(m) => m.writable(addr),
            MapperView::Mbc3(m) => m.writable(addr),
        }
    }

    pub open spec fn write(&self, addr: u16, value: u8) -> MapperView {
        match self {
            MapperView::RomData(rom) => MapperView::RomData(*rom),
            MapperView::Mbc1(m) => MapperView::Mbc1(m.write(addr, value)),
            MapperView::Mbc2(m) => MapperView::Mbc2(m.write(addr, value)),
            MapperView::Mbc3(m) => MapperView::Mbc3(m.write(addr, value)),
        }
    }
}

impl Mapper {
    pub fn read(&self, addr: u16) -> (v: u8)
        requires
            self@.readable(addr),
        ensures
            v == self@.read(addr),
    {
        match self {
            Mapper::RomData(m) => m.read(addr),
            Mapper::Mbc1(m) => m.read(addr),
            Mapper::Mbc2(m) => m.read(addr),
            Mapper::Mbc3(m) => m.read(addr),
        }
    }

    pub fn write(&mut self, addr: u16, value: u8)
        requires
            old(self)@.writable(addr),
        ensures
            final(self)@ == old(self)@.write(addr, value),
    {
        match self {
            Mapper::RomData(m) => m.write(addr, value),
            Mapper::Mbc1(m) => m.write(addr, value),
            Mapper::Mbc2(m) => m.write(addr, value),
            Mapper::Mbc3(m) => m.write(addr, value),
        }
    }
}

} // verus!

verus! {

/// A controller write does not change whether a write to the address just
/// below it is defined.
pub proof fn lemma_write_keeps_writable_below(m: MapperView, a1: u16, v1: u8)
    requires
        m.writable(a1),
    ensures
        m.write(a1, v1).writable(((a1 + 0xFFFF) % 0x10000) as u16)
            == m.writable(((a1 + 0xFFFF) % 0x10000) as u16),
{
    let a2 = ((a1 + 0xFFFF) % 0x10000) as u16;
    match m {
        MapperView::RomData(rom) => {
            assert(m.write(a1, v1) == MapperView::RomData(rom));
        },
        MapperView::Mbc1(c) => {
            assert(m.write(a1, v1) == MapperView::Mbc1(c.write(a1, v1)));
        },
        MapperView::Mbc2(c) => {
            let c2 = c.write(a1, v1);
            assert(m.write(a1, v1) == MapperView::Mbc2(c2));
            if 0xA000 <= a2 <= 0xBFFF {
                assert(0xA001 <= a1 <= 0xC000);
                assert(c2.ram_enabled == c.ram_enabled && c2.ram.len() == c.ram.len());
            }
        },
        MapperView::Mbc3(c) => {
            let c2 = c.write(a1, v1);
            assert(m.write(a1, v1) == MapperView::Mbc3(c2));
            if 0xA000 <= a2 <= 0xBFFF {
                assert(0xA001 <= a1 <= 0xC000);
                assert(c2.ram_timer_enabled == c.ram_timer_enabled && c2.ram.len() == c.ram.len()
                    && c2.ram_bank == c.ram_bank);
            }
        },
    }
}

} // verus!
