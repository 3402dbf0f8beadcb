//! Scaled basis blades as mathematical values, their outer product, and its laws.

use vstd::prelude::*;
use crate::dimension::{
    fits, grade, has_vector, independent, lemma_empty_fits, lemma_independent_encodings,
    lemma_union_encodings, lemma_union_fits,
};
use crate::num::Real;
use crate::orientation::{lemma_swap_count_transposed, swap_count};

verus! {

/// The value of a scaled basis blade: a scalar and the encoding of a unit basis blade.
pub struct Blade<R: Real> {
    pub scale: R,
    pub bitset: u64,
}

/// The scalar with the sign that `swaps` transpositions leave on it.
pub open spec fn oriented<R: Real>(scale: R, swaps: nat) -> R {
    if swaps % 2 == 0 {
        scale
    } else {
        scale.neg_spec()
    }
}

impl<R: Real> Blade<R> {
    /// The zero blade: the zero scalar on the empty unit blade.
    pub open spec fn zero() -> Self {
        Blade { scale: R::zero_spec(), bitset: 0 }
    }

    /// Whether zero is written in the one accepted way: the scalar is zero exactly when
    /// the unit blade is empty.
    pub open spec fn is_canonical(self) -> bool {
        (self.scale == R::zero_spec()) == (self.bitset == 0)
    }

    /// The blade that a scalar and a unit blade stand for: zero if either of them is
    /// zero, the pair itself otherwise.
    pub open spec fn canonical(scale: R, bitset: u64) -> Self {
        if scale == R::zero_spec() || bitset == 0 {
            Self::zero()
        } else {
            Blade { scale, bitset }
        }
    }

    /// The same unit blade with the negated scalar.
    pub open spec fn negated(self) -> Self {
        Blade { scale: self.scale.neg_spec(), bitset: self.bitset }
    }

    /// The outer product of `self` and `rhs`.
    ///
    /// Blades that share a basis vector are linearly dependent, and their product is
    /// zero.  So is a product whose scalars multiply to zero.  Otherwise the product
    /// holds the basis vectors of both, and its scalar is the product of the scalars,
    /// negated when an odd number of transpositions sorts the factors.
    pub open spec fn wedge(self, rhs: Self) -> Self {
        let scale = self.scale.mul_spec(rhs.scale);
        if !independent(self.bitset, rhs.bitset) {
            Self::zero()
        } else if scale == R::zero_spec() {
            Self::zero()
        } else {
            Self::canonical(
                oriented(scale, swap_count(self.bitset, rhs.bitset)),
                self.bitset | rhs.bitset,
            )
        }
    }
}

/// The product of two odd numbers is odd.
proof fn lemma_odd_product(x: nat, y: nat)
    requires
        x % 2 == 1,
        y % 2 == 1,
    ensures
        (x * y) % 2 == 1,
{
    let (p, q) = (x / 2, y / 2);
    assert(x * y == 2 * (2 * p * q + p + q) + 1) by (nonlinear_arith)
        requires
            x == 2 * p + 1,
            y == 2 * q + 1,
    ;
}

/// Negation keeps a scalar apart from zero.
pub proof fn lemma_neg_is_zero<R: Real>(scale: R)
    ensures
        (scale.neg_spec() == R::zero_spec()) == (scale == R::zero_spec()),
{
    R::lemma_neg_twice(scale);
    R::lemma_neg_of_zero();
}

/// Constructing a blade from the zero scalar, or from the empty unit blade, gives the
/// zero blade, and what is constructed is always canonical.
pub proof fn lemma_canonical_zero<R: Real>(scale: R, bitset: u64)
    ensures
        Blade::canonical(R::zero_spec(), bitset) == Blade::<R>::zero(),
        Blade::canonical(scale, 0) == Blade::<R>::zero(),
        Blade::canonical(scale, bitset).is_canonical(),
        Blade::<R>::zero().is_canonical(),
{
}

/// The product of two blades that share a basis vector is zero.
pub proof fn lemma_wedge_dependent<R: Real>(a: Blade<R>, b: Blade<R>)
    requires
        exists|i: nat| has_vector(a.bitset, i) && has_vector(b.bitset, i),
    ensures
        a.wedge(b) == Blade::<R>::zero(),
{
}

/// Zero absorbs: the product of the zero blade with any blade, on either side, is zero.
pub proof fn lemma_wedge_zero<R: Real>(x: Blade<R>)
    ensures
        Blade::<R>::zero().wedge(x) == Blade::<R>::zero(),
        x.wedge(Blade::<R>::zero()) == Blade::<R>::zero(),
{
    R::lemma_mul_by_zero(x.scale);
    R::lemma_mul_commutes(x.scale, R::zero_spec());
}

/// The product of two blades of a space is a canonical blade of that space.
pub proof fn lemma_wedge_closed<R: Real>(a: Blade<R>, b: Blade<R>, n: nat)
    requires
        fits(a.bitset, n),
        fits(b.bitset, n),
    ensures
        a.wedge(b).is_canonical(),
        fits(a.wedge(b).bitset, n),
{
    lemma_union_fits(a.bitset, b.bitset, n);
    lemma_empty_fits(n);
}

/// The scalar of a product of independent blades is the product of their scalars, up to
/// the sign of the orientation.
pub proof fn lemma_wedge_scale<R: Real>(a: Blade<R>, b: Blade<R>)
    requires
        a.is_canonical(),
        b.is_canonical(),
        independent(a.bitset, b.bitset),
    ensures
        a.wedge(b).scale == oriented(a.scale.mul_spec(b.scale), swap_count(a.bitset, b.bitset)),
        a.wedge(b).scale == a.scale.mul_spec(b.scale) || a.wedge(b).scale == a.scale.mul_spec(
            b.scale,
        ).neg_spec(),
{
    let scale = a.scale.mul_spec(b.scale);
    lemma_neg_is_zero(scale);
    lemma_union_encodings(a.bitset, b.bitset);
    R::lemma_mul_by_zero(b.scale);
}

/// Exchanging the factors of a product of independent blades negates it when both
/// grades are odd, and leaves it unchanged otherwise.
pub proof fn lemma_wedge_graded_commutative<R: Real>(a: Blade<R>, b: Blade<R>)
    requires
        a.is_canonical(),
        b.is_canonical(),
        independent(a.bitset, b.bitset),
    ensures
        b.wedge(a) == if (grade(a.bitset) * grade(b.bitset)) % 2 == 1 {
            a.wedge(b).negated()
        } else {
            a.wedge(b)
        },
{
    let scale = a.scale.mul_spec(b.scale);
    R::lemma_mul_commutes(a.scale, b.scale);
    R::lemma_neg_twice(scale);
    R::lemma_neg_of_zero();
    lemma_neg_is_zero(scale);
    lemma_independent_encodings(a.bitset, b.bitset);
    lemma_swap_count_transposed(a.bitset, b.bitset);
    lemma_union_encodings(a.bitset, b.bitset);
}

/// The outer product is anticommutative: exchanging the factors of a product of nonzero
/// independent blades keeps the unit blade and negates the scalar.
///
/// This holds of blades of odd grade.  Where a grade is even, exchanging the factors
/// leaves the product unchanged, which agrees with the negation only for a scalar that
/// is its own negative.
pub proof fn lemma_wedge_anticommutative<R: Real>(a: Blade<R>, b: Blade<R>)
    requires
        a.is_canonical(),
        b.is_canonical(),
        a != Blade::<R>::zero(),
        b != Blade::<R>::zero(),
        independent(a.bitset, b.bitset),
        (grade(a.bitset) % 2 == 1 && grade(b.bitset) % 2 == 1) || a.scale.mul_spec(b.scale)
            == a.scale.mul_spec(b.scale).neg_spec(),
    ensures
        a.wedge(b) == b.wedge(a).negated(),
        a.wedge(b).bitset == b.wedge(a).bitset,
        a.wedge(b).scale == b.wedge(a).scale.neg_spec(),
{
    let scale = a.scale.mul_spec(b.scale);
    lemma_independent_encodings(a.bitset, b.bitset);
    lemma_wedge_graded_commutative(b, a);
    lemma_wedge_scale(b, a);
    R::lemma_mul_commutes(a.scale, b.scale);
    R::lemma_neg_twice(scale);
    R::lemma_neg_of_zero();
    if grade(a.bitset) % 2 == 1 && grade(b.bitset) % 2 == 1 {
        lemma_odd_product(grade(b.bitset), grade(a.bitset));
    }
}

} // verus!
