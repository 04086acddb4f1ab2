use bits::access::{clear_bit, get, get_bool, get_zero_one, mask, set_bit};
use bits::pack::{pack_dna, unpack_dna};

#[test]
fn get_isolates_one_bit() {
    let x: u8 = 128 - 3;
    assert_eq!(get(x, 1), 0);
    assert_eq!(get(x, 2), 4);
    assert_eq!(get(x, 3), 8);
    for i in 0..8 {
        for x in 0..=255u8 {
            assert_eq!(get(x, i), x & (1 << i));
        }
    }
}

#[test]
fn get_bool_and_zero_one_agree() {
    let x: u8 = 128 - 3;
    assert_eq!(get_bool(x, 1), false);
    assert_eq!(get_bool(x, 2), true);
    assert_eq!(get_bool(x, 3), true);
    assert_eq!(get_zero_one(x, 1), 0);
    assert_eq!(get_zero_one(x, 2), 1);
    assert_eq!(get_zero_one(x, 3), 1);
    for i in 0..8 {
        for x in 0..=255u8 {
            assert_eq!(get_bool(x, i), (x >> i) & 1 == 1);
            assert_eq!(get_zero_one(x, i), (x >> i) & 1);
        }
    }
}

#[test]
fn set_bit_reads_back_set() {
    let x: u8 = 128 - 3;
    assert_eq!(set_bit(x, 0), 125);
    assert_eq!(set_bit(x, 1), 127);
    assert_eq!(set_bit(x, 2), 125);
    assert_eq!(set_bit(x, 3), 125);
    for i in 0..8 {
        for x in 0..=255u8 {
            let s = set_bit(x, i);
            assert!(get_bool(s, i));
            for j in 0..8 {
                if j != i {
                    assert_eq!(get_bool(s, j), get_bool(x, j));
                }
            }
        }
    }
}

#[test]
fn clear_bit_reads_back_clear() {
    let x: u8 = 128 - 3;
    assert_eq!(clear_bit(x, 0), 124);
    assert_eq!(clear_bit(x, 1), 125);
    assert_eq!(clear_bit(x, 2), 121);
    assert_eq!(clear_bit(x, 3), 117);
    for i in 0..8 {
        for x in 0..=255u8 {
            let c = clear_bit(x, i);
            assert!(!get_bool(c, i));
            for j in 0..8 {
                if j != i {
                    assert_eq!(get_bool(c, j), get_bool(x, j));
                }
            }
        }
    }
}

#[test]
fn mask_covers_the_half_open_range() {
    assert_eq!(mask(0, 0), 0);
    assert_eq!(mask(0, 1), 1);
    assert_eq!(mask(2, 7), 0b0111_1100);
    assert_eq!(mask(3, 5), 0b0001_1000);
    assert_eq!(mask(0, 8), 0xff);
    assert_eq!(mask(8, 8), 0);
    for low in 0..=8 {
        for high in low..=8 {
            let m = mask(low, high);
            for j in 0..8 {
                assert_eq!((m >> j) & 1 == 1, low <= j && j < high);
            }
        }
    }
}

#[test]
fn pack_dna_packs_most_significant_first() {
    let dna = pack_dna(0, 1, 2, 3);
    assert_eq!(dna, 0b0001_1011);
    assert_eq!(pack_dna(3, 2, 1, 0), 0b1110_0100);
}

#[test]
fn unpack_dna_inverts_pack() {
    let dna = pack_dna(0, 1, 2, 3);
    assert_eq!(unpack_dna(dna), (0, 1, 2, 3));
    for x in 0..4 {
        for y in 0..4 {
            for z in 0..4 {
                for w in 0..4 {
                    assert_eq!(unpack_dna(pack_dna(x, y, z, w)), (x, y, z, w));
                }
            }
        }
    }
    for dna in 0..=255u8 {
        let (x, y, z, w) = unpack_dna(dna);
        assert_eq!(pack_dna(x, y, z, w), dna);
    }
}
