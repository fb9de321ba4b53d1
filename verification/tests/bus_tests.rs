use gb_emu::bus::{Bus, Joypad};
use gb_emu::cartridge::loader::cartridge_from_rom;

fn rom(cart_type: u8, ram_code: u8, banks: usize) -> Vec<u8> {
    let mut rom = vec![0u8; 0x4000 * banks];
    for bank in 0..banks {
        rom[bank * 0x4000] = bank as u8;
    }
    rom[0x134..0x139].copy_from_slice(b"TETRA");
    rom[0x147] = cart_type;
    rom[0x149] = ram_code;
    rom
}

fn bus() -> Bus {
    Bus::new(cartridge_from_rom(rom(0x00, 0, 2)).unwrap())
}

#[test]
fn work_ram_reads_back_and_is_mirrored() {
    let mut b = bus();
    b.write(0xC123, 0x5A);
    assert_eq!(b.read(0xC123), 0x5A);
    assert_eq!(b.read(0xE123), 0x5A);
    assert_eq!(b.read(0xC124), 0x00);
    b.write(0xFF90, 0x11);
    assert_eq!(b.read(0xFF90), 0x11);
    b.write(0x8000, 0x22);
    assert_eq!(b.read(0x8000), 0x22);
    assert_eq!(b.read_vram(0x8000), 0x22);
}

#[test]
fn u16_access_is_little_endian() {
    let mut b = bus();
    b.write_u16(0xC000, 0xBEEF);
    assert_eq!(b.read(0xC000), 0xEF);
    assert_eq!(b.read(0xC001), 0xBE);
    assert_eq!(b.read_u16(0xC000), 0xBEEF);
}

#[test]
fn unusable_area_reads_ff_and_rom_reads_cartridge() {
    let b = bus();
    assert_eq!(b.read(0xFEA0), 0xFF);
    assert_eq!(b.read(0x4000), 1);
    assert_eq!(b.read(0x0000), 0);
    assert!(!b.can_read(0xFF03));
    assert!(b.can_read(0xFF00));
}

#[test]
fn joypad_register_reports_selected_buttons() {
    let mut b = bus();
    b.joypad = Joypad { a: true, b: false, select: false, start: true, up: false, down: false, left: true, right: false };
    // Select the buttons (bit 5 clear): A and Start pressed read as 0.
    b.write(0xFF00, 0x10);
    assert_eq!(b.read(0xFF00), 0x10 | 0x06);
    // Select the directions (bit 4 clear): Left pressed.
    b.write(0xFF00, 0x20);
    assert_eq!(b.read(0xFF00), 0x20 | 0x0D);
}

#[test]
fn serial_transfer_collects_the_byte() {
    let mut b = bus();
    b.write(0xFF01, b'O');
    b.write(0xFF02, 0x81);
    b.write(0xFF01, b'K');
    b.write(0xFF02, 0x01);
    assert_eq!(b.serial_out, vec![b'O']);
}

#[test]
fn dma_copies_a_page_into_oam() {
    let mut b = bus();
    for i in 0..0xA0u16 {
        b.write(0xC100 + i, i as u8 ^ 0x5A);
    }
    b.write(0xFF46, 0xC1);
    assert_eq!(b.read(0xFE00), 0x5A);
    assert_eq!(b.read(0xFE9F), 0x9F ^ 0x5A);
    assert_eq!(b.read(0xFF46), 0xC1);
}

#[test]
fn div_counts_and_resets() {
    let mut b = bus();
    b.step_timer(200);
    b.step_timer(100);
    assert_eq!(b.get_div(), 300);
    assert_eq!(b.read(0xFF04), 1);
    b.write(0xFF04, 0x77);
    assert_eq!(b.get_div(), 0);
}

#[test]
fn tima_overflow_reloads_and_requests_interrupt() {
    let mut b = bus();
    b.write(0xFF06, 0xF0);
    b.write(0xFF05, 0xFE);
    // Enabled, 16 cycles per tick.
    b.write(0xFF07, 0x05);
    b.write(0xFF0F, 0x00);
    assert!(b.can_step_timer(32));
    b.step_timer(32);
    assert_eq!(b.get_tima(), 0xF0);
    assert_eq!(b.get_iflag() & 0x04, 0x04);
    assert_eq!(b.read(0xFF07), 0xFD);
}

#[test]
fn stat_write_keeps_bit_7() {
    let mut b = bus();
    b.write(0xFF41, 0x08);
    assert_eq!(b.get_stat(), 0x88);
    assert_eq!(b.read(0xFF41), 0x88);
}

#[test]
fn interrupt_request_sets_if_bit() {
    let mut b = bus();
    b.write(0xFF0F, 0x00);
    b.request_interrupt(2);
    assert_eq!(b.read(0xFF0F), 0x04);
    b.write(0xFFFF, 0x1F);
    assert_eq!(b.get_ie(), 0x1F);
}

#[test]
fn bus_state_round_trip() {
    let mut b = bus();
    b.write(0xC010, 0x42);
    b.write(0xFF42, 0x07);
    let saved = b.to_state();
    b.write(0xC010, 0x00);
    b.write(0xFF42, 0x00);
    b.load_state(saved);
    assert_eq!(b.read(0xC010), 0x42);
    assert_eq!(b.get_scy(), 0x07);
}

#[test]
fn apu_registers_are_mapped() {
    let mut b = bus();
    b.write(0xFF12, 0xF3);
    assert_eq!(b.read(0xFF12), 0xF3);
    assert_eq!(b.apu.ch1.envelope, 0xF3);
    b.write(0xFF11, 0xFF);
    assert_eq!(b.read(0xFF11), 0xC0);
    b.write(0xFF24, 0x77);
    assert_eq!(b.read(0xFF24), 0x77);
    b.write(0xFF30, 0xAB);
    assert_eq!(b.read(0xFF30), 0xAB);
}

#[test]
fn tac_keeps_three_bits() {
    let mut b = bus();
    assert_eq!(b.get_tac(), 0);
    assert_eq!(b.read(0xFF07), 0xF8);
    b.write(0xFF07, 0xFF);
    assert_eq!(b.get_tac(), 0x07);
    assert_eq!(b.read(0xFF07), 0xFF);
    b.step_timer(100);
    assert_eq!(b.get_tac(), 0x07);
}

#[test]
fn bus_state_keeps_lyc() {
    let mut b = bus();
    b.write(0xFF45, 0x42);
    let saved = b.to_state();
    b.write(0xFF45, 0x00);
    b.load_state(saved);
    assert_eq!(b.read(0xFF45), 0x42);
}
