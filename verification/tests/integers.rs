use hestenes::{OuterProduct, Real, ScaledBasisBlade, UnitBasisBlade};

type Blade5 = ScaledBasisBlade<i64, 5>;

fn blade(scale: i64, bitset: u64) -> Blade5 {
    Blade5::new(scale, UnitBasisBlade::new(bitset))
}

#[test]
fn integer_scalars() {
    assert_eq!(<i64 as Real>::zero(), 0);
    assert_eq!(<i64 as Real>::one(), 1);
    assert!(Real::is_zero(&0i64));
    assert!(!Real::is_zero(&-3i64));
    assert_eq!(Real::neg(5i64), -5);
    assert_eq!(Real::neg(-5i64), 5);
    assert_eq!(Real::neg(0i64), 0);
    assert_eq!(Real::mul(6i64, -7i64), -42);
    assert_eq!(Real::mul(0i64, i64::MAX), 0);
}

#[test]
fn integer_scalars_wrap_around() {
    assert_eq!(Real::neg(i64::MIN), i64::MIN);
    assert_eq!(Real::mul(i64::MAX, 2i64), -2);
    assert_eq!(Real::mul(1i64 << 32, 1i64 << 32), 0);
    assert_eq!(Real::mul(i64::MIN, -1i64), i64::MIN);
}

#[test]
fn integer_outer_product() {
    let c = blade(2, 0b00110) ^ blade(3, 0b00001);
    assert_eq!(c.scale(), 6);
    assert_eq!(c.unit_basis_blade().bitset(), 0b00111);

    let d = blade(1, 0b00010) ^ blade(1, 0b00001);
    assert_eq!(d, blade(-1, 0b00011));

    let e = blade(5, 0b00110) ^ blade(7, 0b00110);
    assert_eq!(e, Blade5::zero());
}

#[test]
fn sign_follows_the_number_of_swaps() {
    // e2 e4 with e1 e3: e2 passes e1, e4 passes e1 and e3.
    assert_eq!(blade(1, 0b01010) ^ blade(1, 0b00101), blade(-1, 0b01111));
    // e1 e3 with e2 e4: only e3 passes e2.
    assert_eq!(blade(1, 0b00101) ^ blade(1, 0b01010), blade(-1, 0b01111));
    // e5 with e1 e2 e3 e4: four swaps.
    assert_eq!(blade(2, 0b10000) ^ blade(3, 0b01111), blade(6, 0b11111));
    // e4 e5 with e1 e2 e3: six swaps.
    assert_eq!(blade(2, 0b11000) ^ blade(3, 0b00111), blade(6, 0b11111));
    // e3 e4 e5 with e2: three swaps.
    assert_eq!(blade(2, 0b11100) ^ blade(3, 0b00010), blade(-6, 0b11110));
}

#[test]
fn exchanging_factors_follows_the_grades() {
    for x in 1..32u64 {
        for y in 1..32u64 {
            if x & y != 0 {
                continue;
            }
            let ab = blade(3, x) ^ blade(-4, y);
            let ba = blade(-4, y) ^ blade(3, x);
            assert_eq!(ab.unit_basis_blade().bitset(), x | y);
            assert_eq!(ba.unit_basis_blade().bitset(), x | y);
            if (x.count_ones() * y.count_ones()) % 2 == 1 {
                assert_eq!(ab.scale(), -ba.scale());
            } else {
                assert_eq!(ab.scale(), ba.scale());
            }
            assert_eq!(ab.scale().abs(), 12);
        }
    }
}

#[test]
fn products_of_dependent_blades_vanish() {
    for x in 1..32u64 {
        for y in 1..32u64 {
            if x & y != 0 {
                assert_eq!(blade(3, x) ^ blade(5, y), Blade5::zero());
            }
        }
    }
}

#[test]
fn a_vanishing_scalar_product_gives_zero() {
    let a = blade(1i64 << 32, 0b00001);
    let b = blade(1i64 << 32, 0b00010);
    assert!(!a.is_zero());
    assert!(!b.is_zero());
    assert_eq!(a ^ b, Blade5::zero());
}

#[test]
fn zero_absorbs_integer_blades() {
    for x in 0..32u64 {
        let b = blade(11, x);
        assert!((Blade5::zero() ^ b).is_zero());
        assert!((b ^ Blade5::zero()).is_zero());
        assert_eq!(Blade5::zero().outer(b), Blade5::zero());
    }
}

#[test]
fn canonical_zero_of_integer_blades() {
    assert_eq!(blade(0, 0b10101), Blade5::zero());
    assert_eq!(blade(17, 0), Blade5::zero());
    assert_eq!(Blade5::zero().scale(), 0);
    assert!(Blade5::zero().unit_basis_blade().is_zero());
    assert!(Blade5::default().is_zero());
}

#[test]
fn conversions_route_through_the_constructor() {
    let unit: UnitBasisBlade<5> = UnitBasisBlade::new(0b10001);
    let a: Blade5 = unit.into();
    assert_eq!(a, blade(1, 0b10001));
    let b: Blade5 = (0i64, unit).into();
    assert_eq!(b, Blade5::zero());
    let c: Blade5 = (4i64, unit).into();
    assert_eq!(c.scale(), 4);
    assert_eq!(c.unit_basis_blade().bitset(), 0b10001);
}

#[test]
fn the_widest_space_uses_every_bit() {
    type Wide = ScaledBasisBlade<i64, 64>;
    let high = Wide::new(1, UnitBasisBlade::new(1u64 << 63));
    let rest = Wide::new(1, UnitBasisBlade::new((1u64 << 63) - 1));
    // The highest vector passes the 63 vectors below it.
    assert_eq!(high ^ rest, Wide::new(-1, UnitBasisBlade::new(u64::MAX)));
    assert_eq!(rest ^ high, Wide::new(1, UnitBasisBlade::new(u64::MAX)));
}
