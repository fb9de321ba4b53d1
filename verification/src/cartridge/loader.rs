use vstd::prelude::*;
use crate::cartridge::Cartridge;
use crate::cartridge::header::{CartHeader, is_title_of, spec_ram_size_bytes};
use crate::cartridge::mapper::{Mapper, MapperView};
use crate::cartridge::rom_data::RomData;
use crate::cartridge::mbc1::{Mbc1, Mbc1View};
use crate::cartridge::mbc2::{Mbc2, Mbc2View};
use crate::cartridge::mbc3::{Mbc3, Mbc3View};

verus! {

/// Why a ROM image could not be turned into a cartridge.
#[derive(Debug, Clone, Copy, PartialEq, Eq, Structural)]
pub enum LoadError {
    UnsupportedCartridgeType(u8),
}

/// The controller state that a freshly loaded ROM image starts in, for the
/// cartridge types that are supported: 0x00 (ROM only), 0x01 (MBC1
/// without RAM), 0x02 and 0x03 (MBC1 with the header's RAM size), 0x05 and
/// 0x06 (MBC2), 0x13 and 0x1B (MBC3 with the header's RAM size).
pub open spec fn initial_mapper(rom: Seq<u8>) -> Option<MapperView> {
    let t = rom[0x147];
    if t == 0x00 {
        Some(MapperView::RomData(rom))
    } else if t == 0x01 || t == 0x02 || t == 0x03 {
        let ram_size: usize = if t == 0x01 { 0 } else { spec_ram_size_bytes(rom[0x149]) };
        Some(MapperView::Mbc1(Mbc1View {
            rom: rom,
            ram: Seq::new(ram_size as nat, |i: int| 0u8),
            ram_enabled: false,
            rom_bank_low: 0,
            bank_hi: 0,
            banking_mode: 0,
            rom_bank_count: (rom.len() / 0x4000) as usize,
            ram_bank_count: ram_size / 0x2000,
        }))
    } else if t == 0x05 || t == 0x06 {
        Some(MapperView::Mbc2(Mbc2View {
            rom: rom,
            ram: Seq::new(512, |i: int| 0u8),
            ram_enabled: false,
            rom_bank: 1,
            rom_bank_count: (rom.len() / 0x4000) as usize,
        }))
    } else if t == 0x13 || t == 0x1B {
        let ram_size = spec_ram_size_bytes(rom[0x149]);
        Some(MapperView::Mbc3(Mbc3View {
            rom: rom,
            ram: Seq::new(ram_size as nat, |i: int| 0u8),
            ram_timer_enabled: false,
            rom_bank: 0,
            ram_bank: 0,
            latch_clock: false,
            rom_bank_count: (rom.len() / 0x4000) as usize,
            ram_bank_count: ram_size / 0x2000,
            rtc_s: 0,
            rtc_m: 0,
            rtc_h: 0,
            rtc_dl: 0,
            rtc_dh: 0,
            latch_prev: 0xFF,
        }))
    } else {
        None
    }
}

/// Builds a cartridge from a ROM image: parses the header and chooses the
/// memory controller by the cartridge type byte.
pub fn cartridge_from_rom(rom: Vec<u8>) -> (r: Result<Cartridge, LoadError>)
    requires
        rom@.len() >= 0x14E,
    ensures
        match r {
            Ok(cart) => initial_mapper(rom@) == Some(cart.mapper@)
                && is_title_of(cart.header.title@, rom@)
                && cart.header.cartridge_type == rom@[0x147]
                && cart.header.ram_size == rom@[0x149],
            Err(e) => initial_mapper(rom@) is None && e == LoadError::UnsupportedCartridgeType(rom@[0x147]),
        },
{
    let header = match CartHeader::parse(rom.as_slice()) {
        Ok(h) => h,
        Err(_) => {
            proof { assert(false); }
            return Err(LoadError::UnsupportedCartridgeType(rom[0x147]));
        },
    };
    let t = header.cartridge_type;
    let mapper = match t {
        0x00 => Mapper::RomData(RomData::new(rom)),
        0x01 => Mapper::Mbc1(Mbc1::new(rom, 0)),
        0x02 | 0x03 => {
            let ram_size = header.ram_size_bytes();
            Mapper::Mbc1(Mbc1::new(rom, ram_size))
        },
        0x05 | 0x06 => Mapper::Mbc2(Mbc2::new(rom)),
        0x13 | 0x1B => {
            let ram_size = header.ram_size_bytes();
            Mapper::Mbc3(Mbc3::new(rom, ram_size))
        },
        _ => {
            return Err(LoadError::UnsupportedCartridgeType(t));
        },
    };
    Ok(Cartridge { header, mapper })
}

} // verus!
