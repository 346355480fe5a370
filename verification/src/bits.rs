//! Small bit-level facts shared by the byte-oriented codecs.
use vstd::prelude::*;

verus! {

/// The two nibbles of a byte, as arithmetic.
pub proof fn lemma_u8_nibbles(b: u8)
    ensures
        b & 0x0f == b % 16,
        b & 0xf0 == b - b % 16,
        b >> 4 == b / 16,
        (b & 0xf0 == 0) == (b < 16),
{
    assert(b & 0x0f == b % 16 && b & 0xf0 == b - b % 16 && b >> 4 == b / 16 && (b & 0xf0 == 0) == (
    b < 16)) by (bit_vector);
}

/// The fields of a raw two-byte trouble code, as arithmetic.
pub proof fn lemma_u16_dtc_fields(raw: u16)
    ensures
        raw >> 14 == raw / 0x4000,
        raw / 0x4000 <= 3,
        (raw >> 12) & 3 == (raw / 0x1000) % 4,
        (raw >> 8) & 0x0f == (raw / 0x100) % 16,
        (raw >> 4) & 0x0f == (raw / 0x10) % 16,
        raw & 0x0f == raw % 16,
{
    assert(raw >> 14 == raw / 0x4000 && (raw >> 12) & 3 == (raw / 0x1000) % 4 && (raw >> 8) & 0x0f
        == (raw / 0x100) % 16 && (raw >> 4) & 0x0f == (raw / 0x10) % 16 && raw & 0x0f == raw % 16)
        by (bit_vector);
}

} // verus!
