//! Two's-complement negation of unsigned words, and arithmetic right shift
//! rebuilt from unsigned primitives.

use vstd::prelude::*;

verus! {

/// The two's-complement negation of `x`: the wrap-around additive inverse.
pub open spec fn neg32(x: u32) -> u32 {
    if x == 0 {
        0u32
    } else {
        (0x100000000 - x) as u32
    }
}

/// Negates the bit pattern of `x` with wrap-around, the unsigned stand-in
/// for unary minus.
pub fn neg(x: u32) -> (r: u32)
    ensures
        r == neg32(x),
{
    0u32.wrapping_sub(x)
}

/// Sign-propagating right shift of `x` by `k`, built from an unsigned shift
/// and a sign-extension mask OR-ed into the upper `k` bits. Matches the
/// native signed shift bit for bit for every `x` and every `k` below the
/// width; the extension mask reaches its place through two shifts so that
/// `k == 0` contributes no bits instead of shifting out of range.
pub fn ashift(x: u32, k: u32) -> (r: u32)
    requires
        k < 32,
    ensures
        r == ((x as i32) >> k) as u32,
{
    let top = x >> 31;
    let sign = neg(top);  // all zeros or all ones depending on leftmost bit
    let extension = (sign << (31 - k)) << 1;  // except lower k
    let r = (x >> k) | extension;
    proof {
        assert(r == ((x as i32) >> k) as u32) by (bit_vector)
            requires
                k < 32,
                top == x >> 31,
                (top == 0 ==> sign == 0),
                (top != 0 ==> sign == (0x100000000 - top) as u32),
                extension == (sign << ((31 - k) as u32)) << 1,
                r == (x >> k) | extension,
        ;
    }
    r
}

} // verus!
