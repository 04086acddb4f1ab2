//! Packing four 2-bit fields into one 8-bit word, most-significant field
//! first, and the exact inverse.

use vstd::prelude::*;

verus! {

/// Packs four 2-bit fields into one byte, `x` in the top two bits down to
/// `w` in the bottom two. Callers must pass fields that already fit in two
/// bits; out-of-range fields are rejected by contract rather than masked.
pub fn pack_dna(x: u8, y: u8, z: u8, w: u8) -> (r: u8)
    requires
        x < 4,
        y < 4,
        z < 4,
        w < 4,
    ensures
        r == x * 64 + y * 16 + z * 4 + w,
{
    let res = x;
    let res = (res << 2) | y;
    let res = (res << 2) | z;
    let res = (res << 2) | w;
    proof {
        assert(((((((x << 2) | y) << 2) | z) << 2) | w) == x * 64 + y * 16 + z * 4 + w)
            by (bit_vector)
            requires
                x < 4,
                y < 4,
                z < 4,
                w < 4,
        ;
    }
    res
}

/// Extracts the four 2-bit fields of `dna`, returned in packing order:
/// the top two bits first, the bottom two bits last.
pub fn unpack_dna(dna: u8) -> (r: (u8, u8, u8, u8))
    ensures
        r.0 == dna / 64,
        r.1 == (dna / 16) % 4,
        r.2 == (dna / 4) % 4,
        r.3 == dna % 4,
{
    let mask: u8 = 0x03;  // the low two bits of a field
    let w = (dna >> 0) & mask;
    let z = (dna >> 2) & mask;
    let y = (dna >> 4) & mask;
    let x = (dna >> 6) & mask;
    proof {
        assert((dna >> 6) & 3u8 == dna / 64 && (dna >> 4) & 3u8 == (dna / 16) % 4 && (dna >> 2)
            & 3u8 == (dna / 4) % 4 && (dna >> 0) & 3u8 == dna % 4) by (bit_vector);
    }
    (x, y, z, w)
}

/// Unpacking a packed word recovers exactly the four fields that were packed.
pub proof fn lemma_unpack_of_pack(x: u8, y: u8, z: u8, w: u8)
    requires
        x < 4,
        y < 4,
        z < 4,
        w < 4,
    ensures
        (x * 64 + y * 16 + z * 4 + w) / 64 == x,
        ((x * 64 + y * 16 + z * 4 + w) / 16) % 4 == y,
        ((x * 64 + y * 16 + z * 4 + w) / 4) % 4 == z,
        (x * 64 + y * 16 + z * 4 + w) % 4 == w,
{
    assert((x * 64 + y * 16 + z * 4 + w) / 64 == x && ((x * 64 + y * 16 + z * 4 + w) / 16) % 4 == y
        && ((x * 64 + y * 16 + z * 4 + w) / 4) % 4 == z && (x * 64 + y * 16 + z * 4 + w) % 4 == w)
        by (bit_vector)
        requires
            x < 4,
            y < 4,
            z < 4,
            w < 4,
    ;
}

/// Packing the four unpacked fields of a word reproduces the word: all eight
/// bits round-trip because the four 2-bit fields cover the whole width.
pub proof fn lemma_pack_of_unpack(dna: u8)
    ensures
        (dna / 64) * 64 + ((dna / 16) % 4) * 16 + ((dna / 4) % 4) * 4 + dna % 4 == dna,
{
    assert((dna / 64) * 64 + ((dna / 16) % 4) * 16 + ((dna / 4) % 4) * 4 + dna % 4 == dna)
        by (bit_vector);
}

} // verus!
