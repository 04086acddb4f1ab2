use bits::enumerate::next_set;
use bits::twos::{ashift, neg};
use bits::xor::{
    branch_select, branchless_select, find_missing, find_non_dup, swap, xor_to_n, xor_to_n_naive,
};

#[test]
fn next_set_exact_values() {
    assert_eq!(next_set(3), Some(5));  // 0b011 -> 0b101
    assert_eq!(next_set(5), Some(6));
    assert_eq!(next_set(6), Some(9));
    assert_eq!(next_set(0), None);
    assert_eq!(next_set(u32::MAX), None);
}

#[test]
fn next_set_absent_when_the_carry_overflows() {
    assert_eq!(next_set(0x8000_0000), None);
    assert_eq!(next_set(0xc000_0000), None);
    assert_eq!(next_set(0xffff_0000), None);
    assert_eq!(next_set(0x4000_0000), Some(0x8000_0000));
}

#[test]
fn next_set_is_the_smallest_successor() {
    for x in 1..300u32 {
        let v = next_set(x).unwrap();
        assert!(v > x);
        assert_eq!(v.count_ones(), x.count_ones());
        for y in x + 1..v {
            assert_ne!(y.count_ones(), x.count_ones());
        }
    }
}

#[test]
fn neg_is_the_twos_complement() {
    assert_eq!(neg(0), 0);
    assert_eq!(neg(1), u32::MAX);
    assert_eq!(neg(5), (-5i32) as u32);
    assert_eq!(neg(0x8000_0000), 0x8000_0000);
}

#[test]
fn ashift_matches_native_signed_shift() {
    for i in -55i32..55i32 {
        for k in 0..32 {
            assert_eq!(ashift(i as u32, k), (i >> k) as u32);
        }
    }
    assert_eq!(ashift(0x8000_0000, 31), 0xffff_ffff);
    assert_eq!(ashift(0x7fff_ffff, 31), 0);
}

#[test]
fn swap_exchanges_the_values() {
    let mut x: u32 = 42;
    let mut y: u32 = 13;
    swap(&mut x, &mut y);
    assert_eq!(x, 13);
    assert_eq!(y, 42);
}

#[test]
fn xor_to_n_matches_the_naive_loop() {
    for i in 0..120 {
        assert_eq!(xor_to_n(i), xor_to_n_naive(i));
    }
    assert_eq!(xor_to_n(0), 0);
    assert_eq!(xor_to_n(1), 1);
    assert_eq!(xor_to_n(2), 3);
    assert_eq!(xor_to_n(3), 0);
    assert_eq!(xor_to_n(4), 4);
}

#[test]
fn find_missing_recovers_the_absent_value() {
    assert_eq!(find_missing(&vec![1, 0, 2, 4]), 3);
    assert_eq!(find_missing(&[0, 1, 2, 3]), 4);
    assert_eq!(find_missing(&[4, 3, 2, 1]), 0);
}

#[test]
fn find_non_dup_recovers_the_unpaired_value() {
    assert_eq!(find_non_dup(&vec![1, 0, 1, 0, 2]), 2);
    assert_eq!(find_non_dup(&[7]), 7);
    assert_eq!(find_non_dup(&[5, 9, 5, 9, 5, 9, 5, 9, 11]), 11);
}

#[test]
fn select_chooses_by_the_condition() {
    assert_eq!(branch_select(true, 13, 42), 13);
    assert_eq!(branchless_select(true, 13, 42), 13);
    assert_eq!(branch_select(false, 13, 42), 42);
    assert_eq!(branchless_select(false, 13, 42), 42);
    for &b in &[false, true] {
        for x in [0u32, 1, 0xdead_beef, u32::MAX] {
            for y in [0u32, 7, 0xffff_0000] {
                let direct = if b { x } else { y };
                assert_eq!(branch_select(b, x, y), direct);
                assert_eq!(branchless_select(b, x, y), direct);
            }
        }
    }
}
