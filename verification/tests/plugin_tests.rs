use gb_emu::plugin::{
    check_abi_version, check_init, decode_vin_samples, read_result_byte, rom_load_offset, vin_byte_len,
    PluginError, PLUGIN_ABI_VERSION, ROM_LOAD_OFFSET,
};

#[test]
fn abi_version_must_match() {
    assert_eq!(PLUGIN_ABI_VERSION, 1);
    assert_eq!(check_abi_version(1), Ok(()));
    assert_eq!(check_abi_version(2), Err(PluginError::VersionMismatch { expected: 1, found: 2 }));
}

#[test]
fn rom_must_fit_after_the_load_offset() {
    assert_eq!(ROM_LOAD_OFFSET, 0x1000);
    assert_eq!(rom_load_offset(0x8000, 0x9000), Ok(0x1000));
    assert_eq!(
        rom_load_offset(0x8000, 0x8FFF),
        Err(PluginError::MemoryTooSmall { need: 0x8000, offset: 0x1000, have: 0x8FFF })
    );
}

#[test]
fn init_code_zero_is_success() {
    assert_eq!(check_init(0), Ok(()));
    assert_eq!(check_init(-3), Err(PluginError::InitFailed(-3)));
}

#[test]
fn read_results_keep_the_low_byte() {
    assert_eq!(read_result_byte(0x1234), 0x34);
    assert_eq!(read_result_byte(-1), 0xFF);
    assert_eq!(read_result_byte(0x7F), 0x7F);
}

#[test]
fn vin_samples_are_little_endian() {
    assert_eq!(vin_byte_len(3), Some(6));
    let bytes = vec![0x34, 0x12, 0xFF, 0xFF, 0x00, 0x80, 0x07];
    assert_eq!(decode_vin_samples(&bytes), vec![0x1234, -1, i16::MIN]);
    assert_eq!(decode_vin_samples(&vec![]), Vec::<i16>::new());
}
