use gb_emu::objects::RawOperand;
use gb_emu::instructions::Delta;
use gb_emu::text::{parse_opcode_key, str_is};

#[test]
fn opcode_keys_are_hexadecimal() {
    assert_eq!(parse_opcode_key("0x3E"), Some(0x3E));
    assert_eq!(parse_opcode_key("0xff"), Some(0xFF));
    assert_eq!(parse_opcode_key("7"), Some(7));
    assert_eq!(parse_opcode_key("0x100"), None);
    assert_eq!(parse_opcode_key("0xG1"), None);
}

#[test]
fn string_equality() {
    assert!(str_is("LD", "LD"));
    assert!(!str_is("LDH", "LD"));
    assert!(!str_is("", "A"));
}

#[test]
fn operand_delta() {
    let mut op = RawOperand { name: "HL".to_string(), immediate: false, increment: true, decrement: false };
    assert_eq!(op.delta(), Delta::Increment);
    op.increment = false;
    op.decrement = true;
    assert_eq!(op.delta(), Delta::Decrement);
    op.decrement = false;
    assert_eq!(op.delta(), Delta::Unchanged);
}
