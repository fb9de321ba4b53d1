use gb_emu::cartridge::header::CartHeader;
use gb_emu::cartridge::loader::{cartridge_from_rom, LoadError};
use gb_emu::cartridge::mapper::Mapper;
use gb_emu::cartridge::mbc1::Mbc1;
use gb_emu::cartridge::mbc2::Mbc2;
use gb_emu::cartridge::mbc3::Mbc3;
use gb_emu::cartridge::rom_data::RomData;

fn rom(cart_type: u8, ram_code: u8, banks: usize) -> Vec<u8> {
    let mut rom = vec![0u8; 0x4000 * banks];
    for bank in 0..banks {
        rom[bank * 0x4000] = bank as u8;
        rom[bank * 0x4000 + 1] = 0xB0 + bank as u8;
    }
    rom[0x134..0x13D].copy_from_slice(b"ZELDA DX\0");
    rom[0x147] = cart_type;
    rom[0x148] = 0x01;
    rom[0x149] = ram_code;
    rom[0x14A] = 0x01;
    rom[0x14B] = 0x33;
    rom[0x14C] = 0x02;
    rom[0x14D] = 0x7E;
    rom
}

#[test]
fn header_fields_are_read() {
    let r = rom(0x13, 0x03, 4);
    let h = CartHeader::parse(&r).unwrap();
    assert_eq!(h.title, "ZELDA DX");
    assert_eq!(h.cartridge_type, 0x13);
    assert_eq!(h.rom_size, 0x01);
    assert_eq!(h.ram_size, 0x03);
    assert_eq!(h.dest_code, 0x01);
    assert_eq!(h.old_lic_code, 0x33);
    assert_eq!(h.version, 0x02);
    assert_eq!(h.checksum, 0x7E);
    assert_eq!(h.ram_size_bytes(), 0x8000);
}

#[test]
fn full_length_title_has_sixteen_characters() {
    let mut r = rom(0x00, 0, 2);
    r[0x134..0x144].copy_from_slice(b"ABCDEFGHIJKLMNOP");
    let h = CartHeader::parse(&r).unwrap();
    assert_eq!(h.title, "ABCDEFGHIJKLMNOP");
}

#[test]
fn ram_size_codes() {
    let mut r = rom(0x00, 0, 2);
    for (code, bytes) in [(0u8, 0usize), (1, 0x800), (2, 0x2000), (3, 0x8000), (4, 0x20000), (5, 0x10000), (9, 0)] {
        r[0x149] = code;
        assert_eq!(CartHeader::parse(&r).unwrap().ram_size_bytes(), bytes);
    }
}

#[test]
fn unsupported_cartridge_type_is_refused() {
    match cartridge_from_rom(rom(0x04, 0, 2)) {
        Err(e) => assert_eq!(e, LoadError::UnsupportedCartridgeType(0x04)),
        Ok(_) => panic!("type 0x04 is not supported"),
    }
    assert!(matches!(cartridge_from_rom(rom(0xFC, 0, 2)), Err(LoadError::UnsupportedCartridgeType(0xFC))));
}

#[test]
fn mapper_is_chosen_by_type() {
    assert!(matches!(cartridge_from_rom(rom(0x00, 0, 2)).unwrap().mapper, Mapper::RomData(_)));
    assert!(matches!(cartridge_from_rom(rom(0x01, 0, 4)).unwrap().mapper, Mapper::Mbc1(_)));
    assert!(matches!(cartridge_from_rom(rom(0x02, 2, 4)).unwrap().mapper, Mapper::Mbc1(_)));
    assert!(matches!(cartridge_from_rom(rom(0x03, 3, 4)).unwrap().mapper, Mapper::Mbc1(_)));
    assert!(matches!(cartridge_from_rom(rom(0x05, 0, 4)).unwrap().mapper, Mapper::Mbc2(_)));
    assert!(matches!(cartridge_from_rom(rom(0x06, 0, 4)).unwrap().mapper, Mapper::Mbc2(_)));
    assert!(matches!(cartridge_from_rom(rom(0x1B, 2, 4)).unwrap().mapper, Mapper::Mbc3(_)));
}

#[test]
fn rom_only_ignores_writes() {
    let mut m = RomData::new(rom(0x00, 0, 2));
    assert_eq!(m.read(0x4001), 0xB1);
    m.write(0x2000, 0x05);
    assert_eq!(m.read(0x4001), 0xB1);
}

#[test]
fn mbc2_switches_banks_and_stores_nibbles() {
    let mut m = Mbc2::new(rom(0x05, 0, 4));
    assert_eq!(m.read(0x4000), 1);
    // Below 0x2000, address bit 8 set selects the bank.
    m.write(0x0100, 0x02);
    assert_eq!(m.read(0x4000), 2);
    m.write(0x2100, 0x03);
    assert_eq!(m.read(0x4000), 2);
    m.write(0x0100, 0x00);
    assert_eq!(m.read(0x4000), 1);
    // RAM disabled reads 0x0F.
    assert_eq!(m.read(0xA000), 0x0F);
    m.write(0x0000, 0x0A);
    m.write(0xA005, 0xFB);
    assert_eq!(m.read(0xA005), 0xFB);
    // The 512 half-bytes are mirrored.
    assert_eq!(m.read(0xA205), 0xFB);
    assert_eq!(m.read(0xA006), 0xF0);
    m.write(0x0000, 0x00);
    assert_eq!(m.read(0xA005), 0x0F);
}

#[test]
fn mbc3_banks_ram_and_clock() {
    let mut m = Mbc3::new(rom(0x13, 3, 8), 0x8000);
    m.write(0x2000, 0x00);
    assert_eq!(m.read(0x4000), 1);
    m.write(0x2000, 0x05);
    assert_eq!(m.read(0x4000), 5);
    assert_eq!(m.read(0xA000), 0xFF);
    m.write(0x0000, 0x0A);
    m.write(0x4000, 0x01);
    m.write(0xA010, 0x77);
    assert_eq!(m.read(0xA010), 0x77);
    m.write(0x4000, 0x00);
    assert_eq!(m.read(0xA010), 0x00);
    m.write(0x4000, 0x08);
    m.write(0xA000, 0x2A);
    assert_eq!(m.read(0xBFFF), 0x2A);
    assert_eq!(m.rtc_s, 0x2A);
}

#[test]
fn mbc3_latch_toggles_on_zero_then_one() {
    let mut m = Mbc3::new(rom(0x13, 0, 2), 0);
    let before = m.latch_clock;
    m.write(0x6000, 0x00);
    m.write(0x6000, 0x01);
    assert_eq!(m.latch_clock, !before);
    m.write(0x6000, 0x01);
    assert_eq!(m.latch_clock, !before);
}

#[test]
fn mbc3_bank_select_uses_low_seven_bits_and_never_bank_zero() {
    let mut m = Mbc3::new(rom(0x13, 0, 8), 0);
    m.write(0x2000, 0x80);
    assert_eq!(m.rom_bank, 1);
    assert_eq!(m.read(0x4000), 1);
    m.write(0x2000, 0x83);
    assert_eq!(m.read(0x4000), 3);
    m.write(0x3FFF, 0x00);
    assert_eq!(m.read(0x4000), 1);
}

#[test]
fn mbc2_fixed_bank_covers_0000_to_3fff() {
    let mut r = rom(0x05, 0, 4);
    r[0x1234] = 0x5C;
    r[0x3FFF] = 0xC5;
    let m = Mbc2::new(r);
    assert_eq!(m.read(0x1234), 0x5C);
    assert_eq!(m.read(0x3FFF), 0xC5);
    assert_eq!(m.read(0x0001), 0xB0);
}

#[test]
fn mbc1_ram_size_follows_the_type() {
    match cartridge_from_rom(rom(0x01, 3, 4)).unwrap().mapper {
        Mapper::Mbc1(m) => assert_eq!(m.ram.len(), 0),
        _ => panic!("expected MBC1"),
    }
    match cartridge_from_rom(rom(0x03, 3, 4)).unwrap().mapper {
        Mapper::Mbc1(m) => {
            assert_eq!(m.ram.len(), 0x8000);
            assert_eq!(m.ram_bank_count, 4);
        }
        _ => panic!("expected MBC1"),
    }
}

#[test]
fn mbc1_bank_select_uses_low_five_bits_and_never_bank_zero() {
    let mut m = Mbc1::new(rom(0x01, 0, 8), 0);
    assert_eq!(m.read(0x4000), 1);
    m.write(0x2000, 0x03);
    assert_eq!(m.read(0x4000), 3);
    assert_eq!(m.read(0x4001), 0xB3);
    m.write(0x3FFF, 0x00);
    assert_eq!(m.read(0x4000), 1);
    m.write(0x2000, 0x20);
    assert_eq!(m.rom_bank_low, 0);
    assert_eq!(m.read(0x4000), 1);
    m.write(0x2000, 0x0A);
    assert_eq!(m.read(0x4000), 2);
    assert_eq!(m.read(0x0001), 0xB0);
}

#[test]
fn mbc1_upper_bits_extend_large_roms() {
    let mut m = Mbc1::new(rom(0x01, 0, 64), 0);
    m.write(0x2000, 0x05);
    m.write(0x4000, 0x01);
    assert_eq!(m.read(0x4000), 37);
    assert_eq!(m.read(0x0000), 0);
    m.write(0x6000, 0x01);
    assert_eq!(m.read(0x0000), 32);
    assert_eq!(m.read(0x0001), 0xB0 + 32);
    m.write(0x6000, 0x00);
    assert_eq!(m.read(0x0000), 0);
    let mut small = Mbc1::new(rom(0x01, 0, 8), 0);
    small.write(0x2000, 0x05);
    small.write(0x4000, 0x01);
    assert_eq!(small.read(0x4000), 5);
}

#[test]
fn mbc1_ram_is_enabled_banked_and_reads_ff_otherwise() {
    let mut m = Mbc1::new(rom(0x03, 3, 4), 0x8000);
    assert_eq!(m.read(0xA000), 0xFF);
    m.write(0xA000, 0x12);
    m.write(0x0000, 0x0A);
    assert_eq!(m.read(0xA000), 0x00);
    m.write(0xA000, 0x12);
    assert_eq!(m.read(0xA000), 0x12);
    m.write(0x4000, 0x02);
    assert_eq!(m.read(0xA000), 0x12);
    m.write(0x6000, 0x01);
    assert_eq!(m.read(0xA000), 0x00);
    m.write(0xBFFF, 0x34);
    assert_eq!(m.read(0xBFFF), 0x34);
    assert_eq!(m.ram[2 * 0x2000 + 0x1FFF], 0x34);
    m.write(0x0000, 0x00);
    assert_eq!(m.read(0xBFFF), 0xFF);
    let mut none = Mbc1::new(rom(0x01, 0, 4), 0);
    none.write(0x0000, 0x0A);
    none.write(0xA000, 0x55);
    assert_eq!(none.read(0xA000), 0xFF);
}
