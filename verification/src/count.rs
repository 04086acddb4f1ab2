//! Population count on 32-bit and 64-bit words, and prefix rank.

use vstd::prelude::*;

verus! {

/// The number of set bits of `x` among the low `n` bit positions: the naive
/// bit-by-bit count that the executable implementations are held to.
pub open spec fn popcount_upto(x: u32, n: int) -> int
    decreases n,
{
    if n <= 0 {
        0
    } else {
        popcount_upto(x, n - 1) + (((x >> ((n - 1) as u32)) & 1u32) as int)
    }
}

/// The number of set bits of `x` over the full 32-bit width.
pub open spec fn popcount32_spec(x: u32) -> int {
    popcount_upto(x, 32)
}

/// Exact population count, computed with the parallel masked pairwise sums
/// folded by a multiply-and-shift reduction rather than a loop.
pub fn popcount32(x: u32) -> (r: u32)
    ensures
        r == popcount32_spec(x),
{
    let m1: u32 = 0x55555555;
    let m2: u32 = 0x33333333;
    let m4: u32 = 0x0f0f0f0f;
    let y: u32 = 0x01010101;

    proof {
        assert((x >> 1) & 0x55555555u32 <= x) by (bit_vector);
    }
    let x1 = x - ((x >> 1) & m1);
    proof {
        assert((x1 & 0x33333333u32) + ((x1 >> 2) & 0x33333333u32) < 0x100000000) by (bit_vector);
    }
    let x2 = (x1 & m2) + ((x1 >> 2) & m2);
    proof {
        assert(x2 + (x2 >> 4) < 0x100000000) by (bit_vector)
            requires
                x2 == (x1 & 0x33333333u32) + ((x1 >> 2) & 0x33333333u32),
        ;
    }
    let x3 = (x2 + (x2 >> 4)) & m4;

    // the plain multiplication would overflow
    let r = x3.wrapping_mul(y) >> 24;
    proof {
        assert(r == popcount_upto(x, 32)) by (bit_vector)
            requires
                x1 == x - ((x >> 1) & 0x55555555u32),
                x2 == (x1 & 0x33333333u32) + ((x1 >> 2) & 0x33333333u32),
                x3 == ((x2 + (x2 >> 4)) as u32) & 0x0f0f0f0fu32,
                r == ((x3 as nat * 0x01010101) % 0x100000000) as u32 >> 24,
        ;
    }
    r
}

/// The number of set bits of `x` among the low `n` bit positions of a
/// 64-bit word.
pub open spec fn popcount_upto64(x: u64, n: int) -> int
    decreases n,
{
    if n <= 0 {
        0
    } else {
        popcount_upto64(x, n - 1) + (((x >> ((n - 1) as u64)) & 1u64) as int)
    }
}

/// The number of set bits of `x` over the full 64-bit width.
pub open spec fn popcount64_spec(x: u64) -> int {
    popcount_upto64(x, 64)
}

/// Exact population count of a 64-bit word, by the same parallel technique
/// as [`popcount32`] with the mask constants widened to 64 bits.
#[verifier::rlimit(100)]
pub fn popcount64(x: u64) -> (r: u64)
    ensures
        r == popcount64_spec(x),
{
    let m1: u64 = 0x5555555555555555;
    let m2: u64 = 0x3333333333333333;
    let m4: u64 = 0x0f0f0f0f0f0f0f0f;
    let y: u64 = 0x0101010101010101;

    proof {
        assert((x >> 1) & 0x5555555555555555u64 <= x) by (bit_vector);
    }
    let x1 = x - ((x >> 1) & m1);
    proof {
        assert((x1 & 0x3333333333333333u64) + ((x1 >> 2) & 0x3333333333333333u64)
            < 0x10000000000000000) by (bit_vector);
    }
    let x2 = (x1 & m2) + ((x1 >> 2) & m2);
    proof {
        assert(x2 + (x2 >> 4) < 0x10000000000000000) by (bit_vector)
            requires
                x2 == (x1 & 0x3333333333333333u64) + ((x1 >> 2) & 0x3333333333333333u64),
        ;
    }
    let x3 = (x2 + (x2 >> 4)) & m4;

    // the plain multiplication would overflow
    let r = x3.wrapping_mul(y) >> 56;
    proof {
        assert(r == popcount_upto64(x, 64)) by (bit_vector)
            requires
                x1 == x - ((x >> 1) & 0x5555555555555555u64),
                x2 == (x1 & 0x3333333333333333u64) + ((x1 >> 2) & 0x3333333333333333u64),
                x3 == ((x2 + (x2 >> 4)) as u64) & 0x0f0f0f0f0f0f0f0fu64,
                r == ((x3 as nat * 0x0101010101010101) % 0x10000000000000000) as u64 >> 56,
        ;
    }
    r
}

/// The word whose low `i` bits are set and whose other bits are clear.
/// The 64-bit intermediate makes the formula exact for the whole index
/// range `0..=32`.
pub open spec fn low_mask32(i: u32) -> u32
    recommends
        i <= 32,
{
    ((1u64 << i) - 1) as u32
}

/// Returns the mask of the low `i` bits, for any `i` in `0..=32` inclusive.
/// The boundary indices shift by a modulo-width amount gated by a zero/
/// non-zero mask, so neither `i == 0` nor `i == 32` shifts out of range.
pub fn rank_mask(i: u32) -> (r: u32)
    requires
        i <= 32,
    ensures
        r == low_mask32(i),
{
    let nz = (i != 0) as u32;
    let gate = 0u32.wrapping_sub(nz);
    let r = gate.wrapping_shr(32 - i);
    proof {
        assert(gate >> (((32 - i) as u32) % 32) == ((1u64 << i) - 1) as u32) by (bit_vector)
            requires
                i <= 32,
                gate == (if i == 0 {
                    0u32
                } else {
                    0xffffffffu32
                }),
        ;
    }
    r
}

/// Bits of `w & low_mask32(i)` agree with `w` below position `i`.
proof fn lemma_pop_low_agrees(w: u32, y: u32, i: u32, n: int)
    requires
        y == w & low_mask32(i),
        i <= 32,
        n <= i,
    ensures
        popcount_upto(y, n) == popcount_upto(w, n),
    decreases n,
{
    if n > 0 {
        lemma_pop_low_agrees(w, y, i, n - 1);
        let s = (n - 1) as u32;
        assert((y >> s) & 1u32 == (w >> s) & 1u32) by (bit_vector)
            requires
                y == w & (((1u64 << i) - 1) as u32),
                s < i,
                i <= 32,
        ;
    }
}

/// Bits of `w & low_mask32(i)` at position `i` and above are clear, so the
/// count stops growing there.
proof fn lemma_pop_high_zero(w: u32, y: u32, i: u32, n: int)
    requires
        y == w & low_mask32(i),
        i <= n <= 32,
    ensures
        popcount_upto(y, n) == popcount_upto(y, i as int),
    decreases n,
{
    if n > i {
        lemma_pop_high_zero(w, y, i, n - 1);
        let s = (n - 1) as u32;
        assert((y >> s) & 1u32 == 0u32) by (bit_vector)
            requires
                y == w & (((1u64 << i) - 1) as u32),
                i <= s < 32,
        ;
    }
}

/// The full-width population count of `w & low_mask32(i)` is the count of
/// the low `i` bits of `w`.
pub proof fn lemma_popcount_low_mask(w: u32, i: u32)
    requires
        i <= 32,
    ensures
        popcount32_spec(w & low_mask32(i)) == popcount_upto(w, i as int),
{
    let y = w & low_mask32(i);
    lemma_pop_low_agrees(w, y, i, i as int);
    lemma_pop_high_zero(w, y, i, 32);
}

/// Population count of the low `i` bits of `w`, for `i` in `0..=32`
/// inclusive; `i == 32` counts all bits.
pub fn rank(w: u32, i: u32) -> (r: u32)
    requires
        i <= 32,
    ensures
        r == popcount_upto(w, i as int),
{
    let m = rank_mask(i);
    let r = popcount32(w & m);
    proof {
        lemma_popcount_low_mask(w, i);
    }
    r
}

/// The rank of the full-width prefix is the population count of the word,
/// and the rank of the empty prefix is zero.
pub proof fn lemma_rank_extremes(w: u32)
    ensures
        popcount_upto(w, 32) == popcount32_spec(w),
        popcount_upto(w, 0) == 0,
{
}

} // verus!
