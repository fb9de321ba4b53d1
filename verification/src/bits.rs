use vstd::prelude::*;

verus! {

/// Byte masks and shifts as divisions and remainders.
pub proof fn lemma_u8_bits()
    by (bit_vector)
    ensures
        forall|x: u8| #[trigger] (x >> 4u8) == x / 16,
        forall|x: u8| #[trigger] ((x >> 6u8) & 0x03) == x / 64,
        forall|x: u8| #[trigger] ((x >> 6u8) & 0x01) == (x / 64) % 2,
        forall|x: u8| #[trigger] ((x >> 3u8) & 0x01) == (x / 8) % 2,
        forall|x: u8| #[trigger] (x & 0x3F) == x % 64,
        forall|x: u8| #[trigger] (x & 0x7F) == x % 128,
        forall|x: u8| #[trigger] (x & 0x0F) == x % 16,
        forall|x: u8| #[trigger] (x & 0x07) == x % 8,
        forall|x: u8| #[trigger] (x & 0x03) == x % 4,
        forall|x: u8| (#[trigger] (x & 0xF8) != 0) == (x >= 8),
        forall|x: u8| #[trigger] ((x & 0xF0) >> 4u8) == x / 16,
        forall|x: u8| #[trigger] ((x & 0xF0) & 0x0F) == 0,
        forall|x: u8| #[trigger] ((x | 0x04) | 0x04) == x | 0x04,
        forall|a: u8, b: u8| #[trigger] (((a & 0x01) << 1u8) | (b & 0x01)) < 4,
        1u8 << 0u8 == 1,
        1u8 << 1u8 == 2,
        1u8 << 2u8 == 4,
{
}

/// Halves of a 16-bit word, and 16-bit masks.
pub proof fn lemma_u16_bits()
    by (bit_vector)
    ensures
        forall|x: u16| #[trigger] ((x >> 8u16) as u8) == x / 256,
        forall|x: u16| #[trigger] ((x & 0xFF) as u8) == x % 256,
        forall|x: u16| #[trigger] (x as u8) == x % 256,
        forall|x: u16| #[trigger] (x & 0xFF) == x % 256,
        forall|x: u16| #[trigger] (x & 0x0F) == x % 16,
        forall|x: u16| #[trigger] (x & 0x0FFF) == x % 4096,
        forall|x: u16| x < 256 ==> #[trigger] (x << 8u16) == x * 256,
        forall|hi: u16, lo: u16| hi < 256 && lo < 256 ==> #[trigger] ((hi << 8u16) | lo) == hi * 256 + lo,
{
}

/// The low half of a 32-bit word.
pub proof fn lemma_u32_bits()
    by (bit_vector)
    ensures
        forall|x: u32| #[trigger] (x & 0xFFFF) == x % 0x10000,
        forall|x: u32| #[trigger] (x as u16) == x % 0x10000,
{
}

} // verus!
