use gb_emu::instructions::{Condition, Reg16, Reg8, Delta};
use gb_emu::registers::{FlagBits, Registers};

#[test]
fn post_boot_values() {
    let r = Registers::new();
    assert_eq!(r.get_af(), 0x01B0);
    assert_eq!(r.get_bc(), 0x0013);
    assert_eq!(r.get_de(), 0x00D8);
    assert_eq!(r.get_hl(), 0x014D);
    assert_eq!(r.get_sp(), 0xFFFE);
    assert_eq!(r.get_pc(), 0x0100);
}

#[test]
fn register_pairs_round_trip() {
    let mut r = Registers::new();
    r.set_bc(0x1234);
    assert_eq!(r.get_bc(), 0x1234);
    assert_eq!(r.get_b(), 0x12);
    assert_eq!(r.get_c(), 0x34);
    r.set_de(0xABCD);
    assert_eq!(r.get_de(), 0xABCD);
    r.set_hl(0xFFFF);
    assert_eq!(r.get_hl(), 0xFFFF);
}

#[test]
fn f_low_nibble_always_reads_zero() {
    let mut r = Registers::new();
    r.set_af(0x12FF);
    assert_eq!(r.get_af(), 0x12F0);
    r.set_f(0x0F);
    assert_eq!(r.get_f(), 0x00);
    r.set8(Reg8::F, 0xAB);
    assert_eq!(r.get_f(), 0xA0);
}

#[test]
fn flags_set_and_test() {
    let mut r = Registers::new();
    r.set_f(0x00);
    r.set_flag_to(FlagBits::C, true);
    assert!(r.get_flag(FlagBits::C));
    assert_eq!(r.get_f(), 0x10);
    r.set_flag_to(FlagBits::Z, true);
    assert_eq!(r.get_f(), 0x90);
    r.set_flag_to(FlagBits::C, false);
    assert_eq!(r.get_f(), 0x80);
    assert!(r.check_conditions(Condition::Z));
    assert!(!r.check_conditions(Condition::NZ));
    assert!(!r.check_conditions(Condition::C));
    assert!(r.check_conditions(Condition::NC));
}

#[test]
fn indexed_access_follows_opcode_encoding() {
    let mut r = Registers::new();
    // Index 0 is B, 7 is A.
    r.set_by_index(0, 0x11);
    assert_eq!(r.get_b(), 0x11);
    r.set_by_index(7, 0x22);
    assert_eq!(r.get_a(), 0x22);
    assert_eq!(r.get_by_index(0x08), 0x11);
    r.set_by_index_u16(0x10, 0x5566);
    assert_eq!(r.get_de(), 0x5566);
    assert_eq!(r.get_by_index_u16(0x10), 0x5566);
}

#[test]
fn hl_with_post_increment() {
    let mut r = Registers::new();
    r.set_hl(0x00FF);
    assert_eq!(r.get16(Reg16::HL(Delta::Increment)), 0x00FF);
    assert_eq!(r.get_hl(), 0x0100);
    assert_eq!(r.get16(Reg16::HL(Delta::Decrement)), 0x0100);
    assert_eq!(r.get_hl(), 0x00FF);
    r.set16(Reg16::SP, 0xC000);
    assert_eq!(r.get_sp(), 0xC000);
}

#[test]
fn pc_and_sp_wrap() {
    let mut r = Registers::new();
    r.set_pc(0x1234);
    assert_eq!(r.get_and_inc_pc(), 0x1234);
    assert_eq!(r.get_pc(), 0x1235);
    assert_eq!(r.inc_pc(), 0x1236);
    r.set_pc(0xFFFE);
    r.inc_pc_by(3);
    assert_eq!(r.get_pc(), 0x0001);
    r.set_sp(0x0001);
    r.dec_sp(2);
    assert_eq!(r.get_sp(), 0xFFFF);
    r.inc_sp(2);
    assert_eq!(r.get_sp(), 0x0001);
}

#[test]
fn f_low_nibble_stays_clear_over_a_run_of_writes() {
    let mut r = Registers::new();
    assert_eq!(r.get_f() & 0x0F, 0);
    r.set8(Reg8::F, 0xFF);
    assert_eq!(r.get_f(), 0xF0);
    r.set16(Reg16::AF, 0x12FF);
    assert_eq!(r.get_f(), 0xF0);
    r.set_af(0x340F);
    assert_eq!(r.get_f(), 0x00);
    r.set_flag_to(FlagBits::C, true);
    r.set_flag_to(FlagBits::H, true);
    assert_eq!(r.get_f(), 0x30);
    r.set_f(0x5A);
    assert_eq!(r.get_f(), 0x50);
    r.set_by_index(7, 0xAB);
    r.set_by_index_u16(0x30, 0xFFFF);
    r.set_pc(0x1234);
    assert_eq!(r.get_f() & 0x0F, 0);
}
