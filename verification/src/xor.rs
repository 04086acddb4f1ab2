//! XOR tricks: in-place swap, the closed-form running XOR, recovery of a
//! missing or unpaired element, and branchless selection.

use vstd::prelude::*;
use crate::twos::neg;

verus! {

broadcast use vstd::seq_lib::group_to_multiset_ensures, vstd::multiset::group_multiset_axioms;

/// The XOR of all integers in `0..=n`.
pub open spec fn xor_to(n: u32) -> u32
    decreases n,
{
    if n == 0 {
        0u32
    } else {
        xor_to((n - 1) as u32) ^ n
    }
}

/// The XOR-fold of a whole sequence of words.
pub open spec fn xor_fold(s: Seq<u32>) -> u32
    decreases s.len(),
{
    if s.len() == 0 {
        0u32
    } else {
        xor_fold(s.drop_last()) ^ s.last()
    }
}

/// The familiar algebra of exclusive-or: commutative, associative, every
/// value its own inverse, zero the identity.
proof fn lemma_xor_algebra()
    by (bit_vector)
    ensures
        forall|a: u32, b: u32| #[trigger] (a ^ b) == b ^ a,
        forall|a: u32, b: u32, c: u32| #[trigger] ((a ^ b) ^ c) == a ^ (b ^ c),
        forall|a: u32| #[trigger] (a ^ a) == 0,
        forall|a: u32| #[trigger] (a ^ 0) == a,
{
}

/// Taking one element out of a sequence takes exactly that element out of
/// the fold.
proof fn lemma_xor_fold_remove(s: Seq<u32>, i: int)
    requires
        0 <= i < s.len(),
    ensures
        xor_fold(s.remove(i)) == xor_fold(s) ^ s[i],
    decreases s.len(),
{
    lemma_xor_algebra();
    if i == s.len() - 1 {
        assert(s.remove(i) =~= s.drop_last());
    } else {
        let t = s.remove(i);
        assert(t.drop_last() =~= s.drop_last().remove(i));
        assert(t.last() == s.last());
        lemma_xor_fold_remove(s.drop_last(), i);
    }
}

/// The XOR-fold does not depend on the order of the sequence: two sequences
/// with the same multiset of values fold to the same word.
pub proof fn lemma_xor_fold_multiset(s1: Seq<u32>, s2: Seq<u32>)
    requires
        s1.to_multiset() == s2.to_multiset(),
    ensures
        xor_fold(s1) == xor_fold(s2),
    decreases s1.len(),
{
    if s1.len() == 0 {
        assert(s1.to_multiset().len() == s1.len());
        assert(s2.to_multiset().len() == s2.len());
    } else {
        lemma_xor_algebra();
        let e = s1.last();
        assert(s1.contains(e));
        assert(s2.to_multiset().count(e) > 0);
        assert(s2.contains(e));
        let j = choose|j: int| 0 <= j < s2.len() && s2[j] == e;
        let t2 = s2.remove(j);
        assert(s1.drop_last().push(e) =~= s1);
        assert(s1.drop_last().to_multiset() =~= s1.to_multiset().remove(e));
        lemma_xor_fold_multiset(s1.drop_last(), t2);
        lemma_xor_fold_remove(s2, j);
    }
}

/// The XOR-fold distributes over concatenation.
pub proof fn lemma_xor_fold_concat(a: Seq<u32>, b: Seq<u32>)
    ensures
        xor_fold(a + b) == xor_fold(a) ^ xor_fold(b),
    decreases b.len(),
{
    lemma_xor_algebra();
    if b.len() == 0 {
        assert(a + b =~= a);
    } else {
        assert((a + b).drop_last() =~= a + b.drop_last());
        assert((a + b).last() == b.last());
        lemma_xor_fold_concat(a, b.drop_last());
    }
}

/// The increasing sequence `0, 1, ..., n`.
pub open spec fn range_seq(n: u32) -> Seq<u32> {
    Seq::new((n + 1) as nat, |i: int| i as u32)
}

/// Folding the whole range `0..=n` gives the running XOR of the range.
pub proof fn lemma_xor_fold_range(n: u32)
    ensures
        xor_fold(range_seq(n)) == xor_to(n),
    decreases n,
{
    lemma_xor_algebra();
    if n == 0 {
        assert(range_seq(0).drop_last() =~= Seq::<u32>::empty());
        assert(xor_fold(Seq::<u32>::empty()) == 0);
        assert(range_seq(0).last() == 0);
    } else {
        assert(range_seq(n).drop_last() =~= range_seq((n - 1) as u32));
        assert(range_seq(n).last() == n);
        lemma_xor_fold_range((n - 1) as u32);
    }
}

/// However the values are ordered: folding a sequence that holds each of
/// `0..=n` exactly once except a single absent value `m` against the
/// running XOR of the whole range recovers exactly `m`.
pub proof fn lemma_find_missing_recovers(s: Seq<u32>, n: u32, m: u32)
    requires
        m <= n,
        s.to_multiset() == range_seq(n).to_multiset().remove(m),
    ensures
        xor_to(n) ^ xor_fold(s) == m,
{
    lemma_xor_algebra();
    assert(range_seq(n)[m as int] == m);
    assert(range_seq(n).contains(m));
    assert(range_seq(n).to_multiset().count(m) > 0);
    assert(s.push(m).to_multiset() =~= range_seq(n).to_multiset());
    lemma_xor_fold_multiset(s.push(m), range_seq(n));
    assert(s.push(m).drop_last() =~= s);
    lemma_xor_fold_range(n);
}

/// Folding a sequence in which one value `m` appears an odd number of times
/// and every other value an even number of times yields `m`; the even
/// occurrences are presented as a doubled sequence `u + u`.
pub proof fn lemma_find_non_dup_recovers(t: Seq<u32>, u: Seq<u32>, m: u32)
    requires
        t.to_multiset() == (u + u).push(m).to_multiset(),
    ensures
        xor_fold(t) == m,
{
    lemma_xor_algebra();
    lemma_xor_fold_multiset(t, (u + u).push(m));
    assert((u + u).push(m).drop_last() =~= u + u);
    lemma_xor_fold_concat(u, u);
}

/// Exchanges two values through three XOR combinations, without a
/// temporary of the element type. The two references cannot alias, so the
/// classic self-swap zeroing cannot arise.
pub fn swap(x: &mut u32, y: &mut u32)
    ensures
        *final(x) == *old(y),
        *final(y) == *old(x),
{
    let ghost x0 = *x;
    let ghost y0 = *y;
    let a = *x ^ *y;
    let b = *y ^ a;
    let c = a ^ b;
    proof {
        assert(b == x0 && c == y0) by (bit_vector)
            requires
                a == x0 ^ y0,
                b == y0 ^ a,
                c == a ^ b,
        ;
    }
    *y = b;
    *x = c;
}

/// XOR of every integer up to and including `n`, by the naive loop.
pub fn xor_to_n_naive(n: u32) -> (r: u32)
    ensures
        r == xor_to(n),
{
    let mut w: u32 = 0;
    let mut a: u32 = 0;
    while a < n
        invariant
            a <= n,
            w == xor_to(a),
        decreases n - a,
    {
        a = a + 1;
        w = w ^ a;
    }
    w
}

/// XOR of every integer up to and including `n`, in constant time: the
/// running XOR repeats with period four, so only `n mod 4` decides the
/// shape of the answer. Equals the naive loop on every `n`.
pub fn xor_to_n(n: u32) -> (r: u32)
    ensures
        r == xor_to(n),
{
    proof {
        lemma_xor_to_closed(n);
        assert(n & 0b11 == n % 4) by (bit_vector);
    }
    let m = n & 0b11;
    if m == 0b00 {
        n
    } else if m == 0b01 {
        1
    } else if m == 0b10 {
        n + 1
    } else {
        0
    }
}

/// The running XOR follows a four-case table on `n mod 4`.
proof fn lemma_xor_to_closed(n: u32)
    ensures
        xor_to(n) == (if n % 4 == 0 {
            n
        } else if n % 4 == 1 {
            1u32
        } else if n % 4 == 2 {
            (n + 1) as u32
        } else {
            0u32
        }),
    decreases n,
{
    if n > 0 {
        lemma_xor_to_closed((n - 1) as u32);
        assert((n % 4 == 0 ==> 0u32 ^ n == n) && (n % 4 == 1 ==> ((n - 1) as u32) ^ n == 1) && (n
            % 4 == 2 ==> 1u32 ^ n == (n + 1) as u32) && (n % 4 == 3 ==> n ^ n == 0)) by (bit_vector)
            requires
                n > 0,
        ;
    }
}

/// Recovers the one element of `0..=values.len()` that is missing from
/// `values`: the XOR of the whole range cancels against the XOR of the
/// slice, leaving exactly the absent value.
pub fn find_missing(values: &[u32]) -> (r: u32)
    requires
        values@.len() <= 0xffffffff,
    ensures
        r == xor_to(values@.len() as u32) ^ xor_fold(values@),
{
    let n = values.len() as u32;
    let mut w = xor_to_n(n);
    let mut i: usize = 0;
    proof {
        lemma_xor_algebra();
    }
    while i < values.len()
        invariant
            i <= values@.len(),
            values@.len() <= 0xffffffff,
            n == values@.len() as u32,
            w == xor_to(n) ^ xor_fold(values@.take(i as int)),
        decreases values@.len() - i,
    {
        proof {
            lemma_xor_algebra();
            assert(values@.take(i + 1).drop_last() =~= values@.take(i as int));
        }
        w = w ^ values[i];
        i = i + 1;
    }
    proof {
        assert(values@.take(values@.len() as int) =~= values@);
    }
    w
}

/// XOR-fold of the whole slice: every value that appears an even number of
/// times cancels, leaving the one that appears an odd number of times.
pub fn find_non_dup(values: &[u32]) -> (r: u32)
    ensures
        r == xor_fold(values@),
{
    let mut w: u32 = 0;
    let mut i: usize = 0;
    while i < values.len()
        invariant
            i <= values@.len(),
            w == xor_fold(values@.take(i as int)),
        decreases values@.len() - i,
    {
        proof {
            assert(values@.take(i + 1).drop_last() =~= values@.take(i as int));
        }
        w = w ^ values[i];
        i = i + 1;
    }
    proof {
        assert(values@.take(values@.len() as int) =~= values@);
    }
    w
}

/// Chooses between two values with an ordinary conditional branch.
pub fn branch_select(b: bool, x: u32, y: u32) -> (r: u32)
    ensures
        r == (if b {
            x
        } else {
            y
        }),
{
    if b {
        x
    } else {
        y
    }
}

/// Chooses between two values without a conditional branch: the boolean
/// becomes an all-ones or all-zero mask that gates the difference pattern
/// `x ^ y`. Agrees with [`branch_select`] on every input.
pub fn branchless_select(b: bool, x: u32, y: u32) -> (r: u32)
    ensures
        r == (if b {
            x
        } else {
            y
        }),
{
    let m = neg(b as u32);
    let r = y ^ ((x ^ y) & m);
    proof {
        assert(y ^ ((x ^ y) & m) == (if b {
            x
        } else {
            y
        })) by (bit_vector)
            requires
                m == (if b {
                    0xffffffffu32
                } else {
                    0u32
                }),
        ;
    }
    r
}

} // verus!
