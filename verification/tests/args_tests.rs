use gb_emu::args::{args_valid, parse_args, parse_decimal_u64};

fn argv(items: &[&str]) -> Vec<String> {
    items.iter().map(|s| s.to_string()).collect()
}

#[test]
fn options_after_the_rom_path_are_read() {
    let raw = argv(&["gb_emu", "game.gb", "--headless", "--frames", "600", "--record", "out.txt",
        "--input-script", "in.txt", "--trace-out", "trace.log", "--custom-cart", "cart.wasm", "--cgb"]);
    assert!(args_valid(&raw));
    let a = parse_args(&raw);
    assert!(a.headless);
    assert_eq!(a.frames, Some(600));
    assert_eq!(a.recording.as_deref(), Some("out.txt"));
    assert_eq!(a.input_script.as_deref(), Some("in.txt"));
    assert_eq!(a.trace_out.as_deref(), Some("trace.log"));
    assert_eq!(a.custom_cart.as_deref(), Some("cart.wasm"));
    assert!(a.cgb_mode);
}

#[test]
fn defaults_and_ignored_arguments() {
    let raw = argv(&["gb_emu", "--headless", "--bogus"]);
    let a = parse_args(&raw);
    // Index 1 is the ROM path and is never read as an option.
    assert!(!a.headless);
    assert_eq!(a.frames, None);
    assert_eq!(a.recording, None);
    assert!(!a.cgb_mode);
}

#[test]
fn later_occurrence_wins() {
    let raw = argv(&["gb_emu", "rom.gb", "--frames", "10", "--frames", "+20"]);
    assert_eq!(parse_args(&raw).frames, Some(20));
}

#[test]
fn missing_or_bad_values_are_refused() {
    assert!(!args_valid(&argv(&["gb_emu", "rom.gb", "--record"])));
    assert!(!args_valid(&argv(&["gb_emu", "rom.gb", "--frames", "ten"])));
    assert!(!args_valid(&argv(&["gb_emu", "rom.gb", "--frames"])));
    assert!(args_valid(&argv(&["gb_emu", "rom.gb"])));
    assert!(args_valid(&argv(&["gb_emu"])));
}

#[test]
fn decimal_u64_parsing() {
    assert_eq!(parse_decimal_u64("0"), Some(0));
    assert_eq!(parse_decimal_u64("600"), Some(600));
    assert_eq!(parse_decimal_u64("+7"), Some(7));
    assert_eq!(parse_decimal_u64("18446744073709551615"), Some(u64::MAX));
    assert_eq!(parse_decimal_u64("18446744073709551616"), None);
    assert_eq!(parse_decimal_u64(""), None);
    assert_eq!(parse_decimal_u64("+"), None);
    assert_eq!(parse_decimal_u64("-1"), None);
    assert_eq!(parse_decimal_u64("12a"), None);
    assert_eq!(parse_decimal_u64(" 1"), None);
    for s in ["0", "42", "+42", "007", "99999999999999999999", "x"] {
        assert_eq!(parse_decimal_u64(s), s.parse::<u64>().ok());
    }
}
