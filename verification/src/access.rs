//! Single-bit accessors and contiguous range masks on 8-bit words.

use vstd::prelude::*;

verus! {

/// True when bit `i` of `x` is set; bit 0 is the least significant.
pub open spec fn bit8(x: u8, i: u8) -> bool {
    (x >> i) & 1u8 == 1u8
}

/// `x` with bit `i` forced to 1, all other bits unchanged.
pub open spec fn set_bit8(x: u8, i: u8) -> u8 {
    x | (1u8 << i)
}

/// `x` with bit `i` forced to 0, all other bits unchanged.
pub open spec fn clear_bit8(x: u8, i: u8) -> u8 {
    x & !(1u8 << i)
}

/// Setting a bit makes it read back as set, clearing makes it read back as
/// clear, and in both cases every other bit keeps its value.
pub proof fn lemma_set_clear_bits(x: u8, i: u8)
    requires
        i < 8,
    ensures
        bit8(set_bit8(x, i), i),
        !bit8(clear_bit8(x, i), i),
        forall|j: u8| j < 8 && j != i ==> #[trigger] bit8(set_bit8(x, i), j) == bit8(x, j),
        forall|j: u8| j < 8 && j != i ==> #[trigger] bit8(clear_bit8(x, i), j) == bit8(x, j),
{
    assert(((x | (1u8 << i)) >> i) & 1u8 == 1u8) by (bit_vector)
        requires
            i < 8,
    ;
    assert(((x & !(1u8 << i)) >> i) & 1u8 != 1u8) by (bit_vector)
        requires
            i < 8,
    ;
    assert forall|j: u8| j < 8 && j != i implies #[trigger] bit8(set_bit8(x, i), j) == bit8(
        x,
        j,
    ) by {
        assert((((x | (1u8 << i)) >> j) & 1u8 == 1u8) == ((x >> j) & 1u8 == 1u8)) by (bit_vector)
            requires
                i < 8,
                j < 8,
                i != j,
        ;
    }
    assert forall|j: u8| j < 8 && j != i implies #[trigger] bit8(clear_bit8(x, i), j) == bit8(
        x,
        j,
    ) by {
        assert((((x & !(1u8 << i)) >> j) & 1u8 == 1u8) == ((x >> j) & 1u8 == 1u8)) by (bit_vector)
            requires
                i < 8,
                j < 8,
                i != j,
        ;
    }
}

/// Returns `x` with every bit cleared except bit `i`, which keeps its value.
pub fn get(x: u8, i: u8) -> (r: u8)
    requires
        i < 8,
    ensures
        forall|j: u8| j < 8 ==> (#[trigger] bit8(r, j) == (j == i && bit8(x, j))),
{
    let r = x & (1u8 << i);
    proof {
        assert forall|j: u8| j < 8 implies (bit8(r, j) == (j == i && bit8(x, j))) by {
            assert((((x & (1u8 << i)) >> j) & 1u8 == 1u8) == (j == i && (x >> j) & 1u8 == 1u8))
                by (bit_vector)
                requires
                    i < 8,
                    j < 8,
            ;
        }
    }
    r
}

/// Returns whether bit `i` of `x` is set.
pub fn get_bool(x: u8, i: u8) -> (r: bool)
    requires
        i < 8,
    ensures
        r == bit8(x, i),
{
    let r = x & (1u8 << i) != 0;
    proof {
        assert((x & (1u8 << i) != 0) == ((x >> i) & 1u8 == 1u8)) by (bit_vector)
            requires
                i < 8,
        ;
    }
    r
}

/// Returns bit `i` of `x` as a raw 0-or-1 value.
pub fn get_zero_one(x: u8, i: u8) -> (r: u8)
    requires
        i < 8,
    ensures
        r == (if bit8(x, i) {
            1u8
        } else {
            0u8
        }),
{
    let r = (x >> i) & 1;
    proof {
        assert((x >> i) & 1u8 <= 1u8) by (bit_vector);
    }
    r
}

/// Returns `x` with bit `i` forced to 1, all other bits unchanged.
pub fn set_bit(x: u8, i: u8) -> (r: u8)
    requires
        i < 8,
    ensures
        r == set_bit8(x, i),
        bit8(r, i),
        forall|j: u8| j < 8 && j != i ==> #[trigger] bit8(r, j) == bit8(x, j),
{
    proof {
        lemma_set_clear_bits(x, i);
    }
    x | (1u8 << i)
}

/// Returns `x` with bit `i` forced to 0, all other bits unchanged.
pub fn clear_bit(x: u8, i: u8) -> (r: u8)
    requires
        i < 8,
    ensures
        r == clear_bit8(x, i),
        !bit8(r, i),
        forall|j: u8| j < 8 && j != i ==> #[trigger] bit8(r, j) == bit8(x, j),
{
    proof {
        lemma_set_clear_bits(x, i);
    }
    x & !(1u8 << i)
}

/// Returns the word whose bits in the half-open range `[low, high)` are set
/// and whose other bits are clear; `low == high` yields the zero mask.
///
/// The mask width `high - low` is computed first and the low mask is built in
/// a 16-bit intermediate, so that a full-width range (and the empty range at
/// `low == 8`) shifts without overflow; the final truncation back to 8 bits
/// discards nothing because every set bit lies below bit 8.
pub fn mask(low: u8, high: u8) -> (r: u8)
    requires
        low <= high,
        high <= 8,
    ensures
        forall|j: u8| j < 8 ==> (#[trigger] bit8(r, j) == (low <= j < high)),
{
    let mask_width = high - low;
    proof {
        assert(1u16 << mask_width >= 1) by (bit_vector)
            requires
                mask_width <= 8,
        ;
    }
    let low_mask: u16 = (1u16 << mask_width) - 1;
    let r = #[verifier::truncate] ((low_mask << low) as u8);
    proof {
        assert forall|j: u8| j < 8 implies (bit8(r, j) == (low <= j < high)) by {
            assert((((((((1u16 << ((high - low) as u8)) - 1) as u16) << low) as u8) >> j) & 1u8
                == 1u8) == (low <= j < high)) by (bit_vector)
                requires
                    low <= high,
                    high <= 8,
                    j < 8,
            ;
        }
    }
    r
}

} // verus!
