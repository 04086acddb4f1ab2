use bits::count::{popcount32, popcount64, rank, rank_mask};
use bits::log2::{leftmost, log2_down, log2_up, twopow, twopow2};

fn naive_popcount(x: u32) -> u32 {
    let mut count = 0;
    for i in 0..32 {
        count += (x >> i) & 1;
    }
    count
}

#[test]
fn popcount_matches_naive_loop() {
    for x in 0..=255u32 {
        assert_eq!(popcount32(x), naive_popcount(x));
    }
    let mut x: u32 = 0x2545f491;
    for _ in 0..10_000 {
        // xorshift sample over the full width
        x ^= x << 13;
        x ^= x >> 17;
        x ^= x << 5;
        assert_eq!(popcount32(x), naive_popcount(x));
    }
}

#[test]
fn popcount_exact_values() {
    assert_eq!(popcount32(0), 0);
    assert_eq!(popcount32(1), 1);
    assert_eq!(popcount32(0xffff_ffff), 32);
    assert_eq!(popcount32(0xdead_beef), 24);
    for i in 0xdeadbeef..0xdeadbeffu32 {
        assert_eq!(popcount32(i), i.count_ones());
    }
}

#[test]
fn popcount64_matches_naive_loop() {
    assert_eq!(popcount64(0), 0);
    assert_eq!(popcount64(u64::MAX), 64);
    assert_eq!(popcount64(0xdead_beef_dead_beef), 48);
    let mut x: u64 = 0x9e3779b97f4a7c15;
    for _ in 0..10_000 {
        // xorshift sample over the full width
        x ^= x << 13;
        x ^= x >> 7;
        x ^= x << 17;
        let mut count: u64 = 0;
        for i in 0..64 {
            count += (x >> i) & 1;
        }
        assert_eq!(popcount64(x), count);
    }
}

#[test]
fn rank_mask_exact_values() {
    assert_eq!(rank_mask(0), 0);
    assert_eq!(rank_mask(1), 1);
    assert_eq!(rank_mask(5), 0b11111);
    assert_eq!(rank_mask(32), 0xffff_ffff);
}

#[test]
fn rank_counts_the_low_bits() {
    let w: u32 = 0xdead_beef;
    for i in 0..=32 {
        assert_eq!(rank(w, i), naive_popcount(w & rank_mask(i)));
    }
}

#[test]
fn rank_extremes_are_popcount_and_zero() {
    for w in [0u32, 1, 0xdead_beef, 0xffff_ffff, 0x8000_0000] {
        assert_eq!(rank(w, 32), popcount32(w));
        assert_eq!(rank(w, 0), 0);
    }
}

#[test]
fn twopow_true_exactly_on_powers() {
    let powers: [u8; 8] = [1, 2, 4, 8, 16, 32, 64, 128];
    assert!(!twopow(0));
    assert!(!twopow2(0));
    for x in 0..=255u8 {
        assert_eq!(twopow(x), powers.contains(&x));
        assert_eq!(twopow2(x), powers.contains(&x));
        assert_eq!(twopow(x), twopow2(x));
    }
}

#[test]
fn log2_of_zero_is_absent() {
    assert_eq!(log2_down(0), None);
    assert_eq!(log2_up(0), None);
}

#[test]
fn log2_exact_values() {
    assert_eq!(log2_down(8), Some(3));
    assert_eq!(log2_up(8), Some(3));
    assert_eq!(log2_down(9), Some(3));
    assert_eq!(log2_up(9), Some(4));
    assert_eq!(log2_down(1), Some(0));
    assert_eq!(log2_up(1), Some(0));
    assert_eq!(log2_down(u32::MAX), Some(31));
    assert_eq!(log2_up(u32::MAX), Some(32));
    assert_eq!(log2_up(0x8000_0000), Some(31));
}

#[test]
fn log2_matches_naive_bounds() {
    for x in 1..2000u32 {
        let k = log2_down(x).unwrap();
        assert!(1u64 << k <= x as u64 && (x as u64) < 1u64 << (k + 1));
        let c = log2_up(x).unwrap();
        assert!((x as u64) <= 1u64 << c);
        if c > 0 {
            assert!(1u64 << (c - 1) < x as u64);
        }
    }
}

#[test]
fn leftmost_isolates_the_highest_bit() {
    assert_eq!(leftmost(0), 0);
    assert_eq!(leftmost(1), 1);
    assert_eq!(leftmost(9), 8);
    assert_eq!(leftmost(u32::MAX), 0x8000_0000);
    for x in 1..2000u32 {
        let r = leftmost(x);
        assert_eq!(r, 1 << (31 - x.leading_zeros()));
    }
}
