use hestenes::dimension::{count_bits, in_dimension, truncate};
use hestenes::notation::{decimal_text, symbols};
use hestenes::orientation::count_swaps;
use hestenes::UnitBasisBlade;

#[test]
fn counting_basis_vectors() {
    assert_eq!(count_bits(0), 0);
    assert_eq!(count_bits(1), 1);
    assert_eq!(count_bits(0b1011), 3);
    assert_eq!(count_bits(1u64 << 63), 1);
    assert_eq!(count_bits(u64::MAX), 64);
    for x in 0..1024u64 {
        assert_eq!(count_bits(x), x.count_ones());
    }
}

#[test]
fn counting_swaps() {
    assert_eq!(count_swaps(0b110, 0b001), 2);
    assert_eq!(count_swaps(0b001, 0b110), 0);
    assert_eq!(count_swaps(0b010, 0b001), 1);
    assert_eq!(count_swaps(0b001, 0b010), 0);
    assert_eq!(count_swaps(0b1010, 0b0101), 3);
    assert_eq!(count_swaps(0b0101, 0b1010), 1);
    assert_eq!(count_swaps(0, 0b1111), 0);
    assert_eq!(count_swaps(0b1111, 0), 0);
    assert_eq!(count_swaps(1, u64::MAX), 0);
    assert_eq!(count_swaps(1u64 << 63, (1u64 << 63) - 1), 63);
    assert_eq!(count_swaps(u64::MAX, u64::MAX), 2016);
}

#[test]
fn swaps_count_the_pairs_out_of_order() {
    for l in 0..64u64 {
        for r in 0..64u64 {
            let mut pairs = 0;
            for i in 0..6 {
                for j in 0..i {
                    if (l >> i) & 1 == 1 && (r >> j) & 1 == 1 {
                        pairs += 1;
                    }
                }
            }
            assert_eq!(count_swaps(l, r), pairs);
        }
    }
}

#[test]
fn swaps_of_both_orders_add_up_to_the_product_of_grades() {
    for l in 0..64u64 {
        for r in 0..64u64 {
            if l & r == 0 {
                assert_eq!(count_swaps(l, r) + count_swaps(r, l), count_bits(l) * count_bits(r));
            }
        }
    }
}

#[test]
fn encodings_of_a_space() {
    assert!(in_dimension(0, 0));
    assert!(!in_dimension(1, 0));
    assert!(in_dimension(0b111, 3));
    assert!(!in_dimension(0b1000, 3));
    assert!(!in_dimension(0b1001, 3));
    assert!(in_dimension(u64::MAX >> 1, 63));
    assert!(!in_dimension(u64::MAX, 63));
    assert!(in_dimension(u64::MAX, 64));
    assert!(in_dimension(u64::MAX, 100));
}

#[test]
fn truncating_encodings() {
    assert_eq!(truncate(0b1111, 3), 0b111);
    assert_eq!(truncate(0b1010, 3), 0b010);
    assert_eq!(truncate(0b101, 3), 0b101);
    assert_eq!(truncate(u64::MAX, 0), 0);
    assert_eq!(truncate(u64::MAX, 1), 1);
    assert_eq!(truncate(u64::MAX, 63), u64::MAX >> 1);
    assert_eq!(truncate(u64::MAX, 64), u64::MAX);
    assert_eq!(truncate(u64::MAX, 1000), u64::MAX);
}

#[test]
fn unit_blades() {
    let zero: UnitBasisBlade<3> = UnitBasisBlade::zero();
    assert!(zero.is_zero());
    assert_eq!(zero.bitset(), 0);
    assert_eq!(UnitBasisBlade::<3>::default(), zero);

    let blade: UnitBasisBlade<3> = UnitBasisBlade::new(0b101);
    assert!(!blade.is_zero());
    assert_eq!(blade.bitset(), 0b101);
    assert_eq!(blade.basis_vectors(), vec![true, false, true]);
    assert_eq!(zero.basis_vectors(), vec![false, false, false]);
    assert_eq!(UnitBasisBlade::<0>::zero().basis_vectors(), Vec::<bool>::new());
}

#[test]
fn unit_blades_from_raw_encodings() {
    let blade: UnitBasisBlade<3> = 0b110.into();
    assert_eq!(blade, UnitBasisBlade::new(0b110));
    let cut: UnitBasisBlade<3> = 0b11010.into();
    assert_eq!(cut.bitset(), 0b010);
    let wide: UnitBasisBlade<64> = u64::MAX.into();
    assert_eq!(wide.bitset(), u64::MAX);
}

#[test]
fn basis_vectors_beyond_the_encoding() {
    let blade: UnitBasisBlade<66> = UnitBasisBlade::new(1u64 << 63);
    let present = blade.basis_vectors();
    assert_eq!(present.len(), 66);
    for (i, has_base) in present.iter().enumerate() {
        assert_eq!(*has_base, i == 63);
    }
}

#[test]
fn decimal_numerals() {
    assert_eq!(decimal_text(0), "0");
    assert_eq!(decimal_text(7), "7");
    assert_eq!(decimal_text(10), "10");
    assert_eq!(decimal_text(64), "64");
    assert_eq!(decimal_text(1234567890), "1234567890");
    assert_eq!(decimal_text(usize::MAX), format!("{}", usize::MAX));
}

#[test]
fn symbols_of_basis_vectors() {
    assert_eq!(symbols(0, 3), "");
    assert_eq!(symbols(0b001, 3), "\\boldsymbol{e}_1");
    assert_eq!(symbols(0b111, 3), "\\boldsymbol{e}_1\\boldsymbol{e}_2\\boldsymbol{e}_3");
    assert_eq!(symbols(0b110, 3), "\\boldsymbol{e}_2\\boldsymbol{e}_3");
    assert_eq!(symbols(1u64 << 9, 12), "\\boldsymbol{e}_10");
    assert_eq!(symbols((1u64 << 63) | 1, 64), "\\boldsymbol{e}_1\\boldsymbol{e}_64");
    assert_eq!(symbols((1u64 << 63) | 1, 70), "\\boldsymbol{e}_1\\boldsymbol{e}_64");
    // Only the vectors of the space are written.
    assert_eq!(symbols(0b1111, 2), "\\boldsymbol{e}_1\\boldsymbol{e}_2");

    let blade: UnitBasisBlade<3> = UnitBasisBlade::new(0b101);
    assert_eq!(blade.symbols(), "\\boldsymbol{e}_1\\boldsymbol{e}_3");
}
