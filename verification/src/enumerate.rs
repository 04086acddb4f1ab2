//! Enumeration of bit patterns: the next integer with the same number of
//! set bits.

use vstd::prelude::*;
use crate::count::popcount32_spec;
use crate::twos::{neg, neg32};

verus! {

/// The lowest set bit of `x` in isolation; zero for zero.
pub open spec fn lowbit32(x: u32) -> u32 {
    x & neg32(x)
}

/// Returns the smallest integer greater than `x` with the same number of
/// set bits, or nothing when no such value fits in the width: when `x` is
/// zero, which has no well-defined successor, or when carrying the lowest
/// run of ones past the top bit overflows the word.
///
/// The run of trailing ones is replaced by a single carry bit just above it,
/// and the remaining ones of the run return to the bottom of the word; a
/// shift that would move past the width contributes no bits.
pub fn next_set(x: u32) -> (r: Option<u32>)
    ensures
        r is None <==> (x == 0 || x + lowbit32(x) > u32::MAX),
        r matches Some(v) ==> v > x && popcount32_spec(v) == popcount32_spec(x),
        r matches Some(v) ==> forall|y: u32|
            x < y < v ==> popcount32_spec(y) != popcount32_spec(x),
{
    if x == 0 {
        return None;
    }
    let rightmost = x & neg(x);  // the lowest set bit
    let carried = match x.checked_add(rightmost) {
        None => { return None },
        Some(c) => c,  // the 1-run removed, the carry put above it
    };
    let shift = x.trailing_zeros() + 2;  // the carry keeps one bit of the run
    let ones = if shift < 32 {
        (x ^ carried) >> shift
    } else {
        0  // the whole run went into the carry
    };
    let v = carried | ones;
    proof {
        vstd::std_specs::bits::axiom_u32_trailing_zeros(x);
        let t = vstd::std_specs::bits::u32_trailing_zeros(x);
        assert(v > x && popcount32_spec(v) == popcount32_spec(x)) by (bit_vector)
            requires
                x != 0,
                rightmost == x & ((0x100000000 - x) as u32),
                x + rightmost <= 0xffffffff,
                carried == (x + rightmost) as u32,
                t < 32,
                (x >> t) & 1u32 == 1u32,
                x << ((32 - t) as u32) == 0,
                ones == (if t + 2 < 32 {
                    (x ^ carried) >> ((t + 2) as u32)
                } else {
                    0u32
                }),
                v == carried | ones,
        ;
        assert forall|y: u32| x < y < v implies popcount32_spec(y) != popcount32_spec(x) by {
            assert(popcount32_spec(y) != popcount32_spec(x)) by (bit_vector)
                requires
                    x != 0,
                    rightmost == x & ((0x100000000 - x) as u32),
                    x + rightmost <= 0xffffffff,
                    carried == (x + rightmost) as u32,
                    t < 32,
                    (x >> t) & 1u32 == 1u32,
                    x << ((32 - t) as u32) == 0,
                    ones == (if t + 2 < 32 {
                        (x ^ carried) >> ((t + 2) as u32)
                    } else {
                        0u32
                    }),
                    v == carried | ones,
                    x < y < v,
            ;
        }
    }
    Some(v)
}

} // verus!
