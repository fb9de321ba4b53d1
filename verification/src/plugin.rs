use vstd::prelude::*;

verus! {

/// The plugin ABI version this host speaks.
pub const PLUGIN_ABI_VERSION: u32 = 1;

/// Where the ROM is placed in a plugin's linear memory.
pub const ROM_LOAD_OFFSET: u32 = 0x1000;

/// Why a cartridge plugin was refused.
#[derive(Debug, Clone, Copy, PartialEq, Eq, Structural)]
pub enum PluginError {
    /// The plugin reports another ABI version.
    VersionMismatch { expected: u32, found: u32 },
    /// The ROM does not fit in the plugin's memory after the load offset.
    MemoryTooSmall { need: usize, offset: u32, have: usize },
    /// `cart_init` returned a non-zero code.
    InitFailed(i32),
}

/// Accepts a plugin that reports this host's ABI version.
pub fn check_abi_version(version: u32) -> (r: Result<(), PluginError>)
    ensures
        r == (if version == PLUGIN_ABI_VERSION {
            Ok::<(), PluginError>(())
        } else {
            Err(PluginError::VersionMismatch { expected: PLUGIN_ABI_VERSION, found: version })
        }),
{
    if version == PLUGIN_ABI_VERSION {
        Ok(())
    } else {
        Err(PluginError::VersionMismatch { expected: PLUGIN_ABI_VERSION, found: version })
    }
}

/// The offset at which a ROM of `rom_len` bytes is written into a plugin
/// memory of `memory_size` bytes, if it fits there.
pub fn rom_load_offset(rom_len: usize, memory_size: usize) -> (r: Result<usize, PluginError>)
    requires
        ROM_LOAD_OFFSET + rom_len <= usize::MAX,
    ensures
        r == (if ROM_LOAD_OFFSET + rom_len <= memory_size {
            Ok::<usize, PluginError>(ROM_LOAD_OFFSET as usize)
        } else {
            Err(PluginError::MemoryTooSmall { need: rom_len, offset: ROM_LOAD_OFFSET, have: memory_size })
        }),
{
    if (ROM_LOAD_OFFSET as usize) + rom_len <= memory_size {
        Ok(ROM_LOAD_OFFSET as usize)
    } else {
        Err(PluginError::MemoryTooSmall { need: rom_len, offset: ROM_LOAD_OFFSET, have: memory_size })
    }
}

/// Accepts the result of `cart_init`: 0 is success.
pub fn check_init(code: i32) -> (r: Result<(), PluginError>)
    ensures
        r == (if code == 0 { Ok::<(), PluginError>(()) } else { Err(PluginError::InitFailed(code)) }),
{
    if code != 0 {
        return Err(PluginError::InitFailed(code));
    }
    Ok(())
}

/// The byte a `cart_read` result stands for: its low eight bits.
pub fn read_result_byte(raw: i32) -> (b: u8)
    ensures
        b as int == raw as int % 256,
{
    assert((raw as u8) as int == raw as int % 256) by (bit_vector);
    raw as u8
}

/// The number of bytes that `len` Vin samples take, if it fits in `usize`.
pub fn vin_byte_len(len: u32) -> (r: Option<usize>)
    ensures
        r == (if 2 * len <= usize::MAX { Some((2 * len) as usize) } else { None::<usize> }),
{
    (len as usize).checked_mul(2)
}

/// The 16-bit value of two little-endian bytes.
pub open spec fn le_u16(lo: u8, hi: u8) -> u16 {
    (hi as int * 256 + lo as int) as u16
}

/// The signed samples of a little-endian byte buffer; a trailing odd byte
/// is ignored.
pub fn decode_vin_samples(bytes: &Vec<u8>) -> (samples: Vec<i16>)
    ensures
        samples.len() == bytes.len() / 2,
        forall|k: int| 0 <= k < samples.len() ==> #[trigger] samples[k] == le_u16(bytes[2 * k], bytes[2 * k + 1]) as i16,
{
    let mut samples: Vec<i16> = Vec::with_capacity(bytes.len() / 2);
    let mut k: usize = 0;
    while k < bytes.len() / 2
        invariant
            k <= bytes.len() / 2,
            samples.len() == k,
            forall|m: int| 0 <= m < k ==> #[trigger] samples[m] == le_u16(bytes[2 * m], bytes[2 * m + 1]) as i16,
        decreases bytes.len() / 2 - k,
    {
        let lo = bytes[2 * k];
        let hi = bytes[2 * k + 1];
        let v: u16 = ((hi as u16) << 8) | lo as u16;
        assert(v == hi as int * 256 + lo as int) by { crate::bits::lemma_u16_bits(); }
        samples.push(v as i16);
        k += 1;
    }
    samples
}

} // verus!
