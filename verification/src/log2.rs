//! Power-of-two tests, floor and ceiling binary logarithms, and isolation
//! of the highest set bit.

use vstd::prelude::*;

verus! {

/// `x` is an exact power of two: exactly one bit is set.
pub open spec fn is_pow2_8(x: u8) -> bool {
    exists|k: u8| k < 8 && x == (1u8 << k)
}

/// `x` is an exact power of two: exactly one bit is set.
pub open spec fn is_pow2_32(x: u32) -> bool {
    exists|k: u32| k < 32 && x == (1u32 << k)
}

/// The classic mask test `x & (x - 1) == 0` on a non-zero word holds exactly
/// for the powers of two.
proof fn lemma_pow2_iff(x: u8)
    ensures
        (x != 0 && x & ((x - 1) as u8) == 0) == is_pow2_8(x),
{
    if x != 0 && x & ((x - 1) as u8) == 0 {
        vstd::std_specs::bits::axiom_u8_trailing_zeros(x);
        let t = vstd::std_specs::bits::u8_trailing_zeros(x) as u8;
        assert(x == 1u8 << t) by (bit_vector)
            requires
                x != 0,
                x & ((x - 1) as u8) == 0,
                t < 8,
                (x >> t) & 1u8 == 1u8,
        ;
    } else {
        assert(forall|k: u8|
            k < 8 ==> (1u8 << k != 0 && (1u8 << k) & ((((1u8 << k) - 1)) as u8) == 0))
            by (bit_vector);
    }
}

/// True exactly when `x` is a power of two, by the `x & (x - 1)` mask test;
/// false for zero.
pub fn twopow(x: u8) -> (r: bool)
    ensures
        r == is_pow2_8(x),
{
    let r = x != 0 && x & (x - 1) == 0;
    proof {
        lemma_pow2_iff(x);
    }
    r
}

/// True exactly when `x` is a power of two, by the two's-complement identity
/// `x == x & -x`; false for zero. Agrees with [`twopow`] on every input.
///
/// The unsigned negation is the wrap-around negate-the-bit-pattern
/// operation, written here as a wrapping subtraction from zero.
pub fn twopow2(x: u8) -> (r: bool)
    ensures
        r == is_pow2_8(x),
{
    let n = 0u8.wrapping_sub(x);
    let r = x != 0 && x == x & n;
    proof {
        assert((x != 0 && x == x & n) == (x != 0 && x & ((x - 1) as u8) == 0)) by (bit_vector)
            requires
                n == (if x == 0 {
                    0u8
                } else {
                    (256 - x) as u8
                }),
        ;
        lemma_pow2_iff(x);
    }
    r
}

/// Floor of the binary logarithm: absent exactly for zero, and otherwise
/// the unique `k` with `2^k <= x < 2^(k+1)`, computed from the leading-zero
/// count.
pub fn log2_down(x: u32) -> (r: Option<u32>)
    ensures
        r is None <==> x == 0,
        r matches Some(k) ==> k < 32 && x >> k == 1 && (1u64 << k) <= x && x < (1u64 << ((k + 1)
            as u32)),
{
    let r = 31u32.checked_sub(x.leading_zeros());
    proof {
        vstd::std_specs::bits::axiom_u32_leading_zeros(x);
        if x != 0 {
            let t = vstd::std_specs::bits::u32_leading_zeros(x);
            let k = (31 - t) as u32;
            assert(x >> k == 1 && (1u64 << k) <= x && x < (1u64 << ((k + 1) as u32)))
                by (bit_vector)
                requires
                    k < 32,
                    (x >> k) & 1u32 != 0u32,
                    x >> ((k + 1) as u32) == 0,
            ;
        }
    }
    r
}

/// Ceiling of the binary logarithm: absent exactly for zero, and otherwise
/// the unique `c` with `2^(c-1) < x <= 2^c` (`c == 0` for `x == 1`). It is
/// the floor logarithm, plus one unless `x` is a power of two.
pub fn log2_up(x: u32) -> (r: Option<u32>)
    ensures
        r is None <==> x == 0,
        r matches Some(c) ==> c <= 32 && x <= (1u64 << c) && (c == 0 || (1u64 << ((c - 1) as u32))
            < x),
{
    let k = match log2_down(x) {
        None => { return None },
        Some(k) => k,
    };
    let c = k + ((k != x.trailing_zeros()) as u32);
    proof {
        vstd::std_specs::bits::axiom_u32_trailing_zeros(x);
        let t = vstd::std_specs::bits::u32_trailing_zeros(x);
        assert(c <= 32 && x <= (1u64 << c) && (c == 0 || (1u64 << ((c - 1) as u32)) < x))
            by (bit_vector)
            requires
                x != 0,
                k < 32,
                x >> k == 1,
                t < 32,
                (x >> t) & 1u32 == 1u32,
                x << ((32 - t) as u32) == 0,
                c == (if k == t {
                    k
                } else {
                    (k + 1) as u32
                }),
        ;
    }
    Some(c)
}

/// Isolates the single highest set bit of `x`; zero for zero. The fills
/// smear the top bit into every lower position with shifts 1, 2, 4, 8, 16,
/// and the final exclusive-or keeps only the leader.
pub fn leftmost(x: u32) -> (r: u32)
    ensures
        x == 0 ==> r == 0,
        x != 0 ==> is_pow2_32(r) && r <= x && x < 2 * r,
{
    let x1 = x | (x >> 1);
    let x2 = x1 | (x1 >> 2);
    let x3 = x2 | (x2 >> 4);
    let x4 = x3 | (x3 >> 8);
    let x5 = x4 | (x4 >> 16);
    let r = x5 ^ (x5 >> 1);
    proof {
        vstd::std_specs::bits::axiom_u32_leading_zeros(x);
        if x != 0 {
            let t = vstd::std_specs::bits::u32_leading_zeros(x);
            let k = (31 - t) as u32;
            assert(r == 1u32 << k && r <= x && x < 2 * r) by (bit_vector)
                requires
                    k < 32,
                    (x >> k) & 1u32 != 0u32,
                    x >> ((k + 1) as u32) == 0,
                    x1 == x | (x >> 1),
                    x2 == x1 | (x1 >> 2),
                    x3 == x2 | (x2 >> 4),
                    x4 == x3 | (x3 >> 8),
                    x5 == x4 | (x4 >> 16),
                    r == x5 ^ (x5 >> 1),
            ;
        } else {
            assert(r == 0) by (bit_vector)
                requires
                    x == 0,
                    x1 == x | (x >> 1),
                    x2 == x1 | (x1 >> 2),
                    x3 == x2 | (x2 >> 4),
                    x4 == x3 | (x3 >> 8),
                    x5 == x4 | (x4 >> 16),
                    r == x5 ^ (x5 >> 1),
            ;
        }
    }
    r
}

} // verus!
