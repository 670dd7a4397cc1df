//! Nibble packing for 4-bit quantized weights.

use vstd::prelude::*;

verus! {

/// Packs two 4-bit values into one byte: `v0` in the low nibble, `v1` in the high nibble.
/// Only the low four bits of each argument are kept.
pub fn pack_i4(v0: u8, v1: u8) -> (r: u8)
    ensures
        r == (v0 % 16) + 16 * (v1 % 16),
{
    let r = (v0 & 0x0F) | ((v1 & 0x0F) << 4u8);
    assert(r == (v0 % 16) + 16 * (v1 % 16)) by (bit_vector)
        requires
            r == (v0 & 0x0F) | ((v1 & 0x0F) << 4u8),
    ;
    r
}

/// Splits a byte into its low and high nibbles.
pub fn unpack_i4(byte: u8) -> (r: (u8, u8))
    ensures
        r.0 == byte % 16,
        r.1 == byte / 16,
{
    let lo = byte & 0x0F;
    let hi = (byte >> 4u8) & 0x0F;
    assert(lo == byte % 16 && hi == byte / 16) by (bit_vector)
        requires
            lo == byte & 0x0F,
            hi == (byte >> 4u8) & 0x0F,
    ;
    (lo, hi)
}

/// Unpacking a packed byte gives back both nibbles.
pub proof fn lemma_unpack_pack(v0: u8, v1: u8)
    ensures
        ((v0 % 16) + 16 * (v1 % 16)) % 16 == v0 % 16,
        ((v0 % 16) + 16 * (v1 % 16)) / 16 == v1 % 16,
{
}

/// Packing the two nibbles of a byte gives back the byte.
pub proof fn lemma_pack_unpack(byte: u8)
    ensures
        (byte % 16) % 16 + 16 * ((byte / 16) % 16) == byte,
{
}

} // verus!
