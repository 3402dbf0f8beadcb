//! Scaled basis blades and their outer product.

use std::ops::BitXor;
use vstd::prelude::*;
use vstd::std_specs::convert::FromSpecImpl;
use vstd::std_specs::ops::BitXorSpecImpl;
use crate::algebra::Blade;
use crate::dimension::{fits, lemma_empty_fits, lemma_independent_encodings, lemma_union_fits};
use crate::num::Real;
use crate::ops::OuterProduct;
use crate::orientation::count_swaps;
use crate::unit_basis_blade::UnitBasisBlade;

verus! {

/// A basis blade of a space of `N` dimensions with a scalar coefficient.
///
/// Zero is written in one way only: the zero scalar on the zero unit blade.  So two
/// values are equal exactly when the blades they stand for are.
#[derive(Copy, PartialEq, Eq, Debug)]
pub struct ScaledBasisBlade<R: Real, const N: usize> {
    scale: R,
    unit_basis_blade: UnitBasisBlade<N>,
}

impl<R: Real, const N: usize> View for ScaledBasisBlade<R, N> {
    type V = Blade<R>;

    /// The scalar and the encoding of the unit blade.
    closed spec fn view(&self) -> Blade<R> {
        Blade { scale: self.scale, bitset: self.unit_basis_blade@ }
    }
}

impl<R: Real, const N: usize> ScaledBasisBlade<R, N> {
    /// Zero is canonical, and the unit blade lies in the space.
    #[verifier::type_invariant]
    pub open spec fn wf(self) -> bool {
        self@.is_canonical() && fits(self@.bitset, N as nat)
    }

    /// The scaled basis blade with the given value.
    pub closed spec fn from_view(value: Blade<R>) -> Self {
        ScaledBasisBlade {
            scale: value.scale,
            unit_basis_blade: UnitBasisBlade::from_view(value.bitset),
        }
    }

    /// A scaled basis blade and its value determine each other.
    pub proof fn lemma_view_inverse(self, value: Blade<R>)
        ensures
            Self::from_view(self@) == self,
            Self::from_view(value)@ == value,
    {
        self.unit_basis_blade.lemma_view_inverse(value.bitset);
    }

    /// The zero blade.
    pub fn zero() -> (blade: Self)
        ensures
            blade@ == Blade::<R>::zero(),
            blade == Self::from_view(Blade::zero()),
    {
        proof {
            lemma_empty_fits(N as nat);
        }
        let blade = ScaledBasisBlade { scale: R::zero(), unit_basis_blade: UnitBasisBlade::zero() };
        proof {
            blade.lemma_view_inverse(blade@);
        }
        blade
    }

    /// The blade that `scale` and `unit_basis_blade` stand for: zero if either of them
    /// is zero, and otherwise the two as they are.
    pub fn new(scale: R, unit_basis_blade: UnitBasisBlade<N>) -> (blade: Self)
        ensures
            blade@ == Blade::canonical(scale, unit_basis_blade@),
            scale == R::zero_spec() || unit_basis_blade@ == 0 ==> blade == Self::from_view(
                Blade::zero(),
            ),
    {
        if unit_basis_blade.is_zero() || scale.is_zero() {
            Self::zero()
        } else {
            proof {
                use_type_invariant(&unit_basis_blade);
            }
            ScaledBasisBlade { scale, unit_basis_blade }
        }
    }

    /// The scalar coefficient.
    pub fn scale(&self) -> (scale: R)
        ensures
            scale == self@.scale,
    {
        self.scale
    }

    /// The unit blade.
    pub fn unit_basis_blade(&self) -> (unit_basis_blade: &UnitBasisBlade<N>)
        ensures
            unit_basis_blade@ == self@.bitset,
    {
        &self.unit_basis_blade
    }

    /// Whether this is the zero blade, which is the case exactly when the scalar is zero.
    pub fn is_zero(&self) -> (b: bool)
        ensures
            b == (self@ == Blade::<R>::zero()),
            b == (self@.scale == R::zero_spec()),
    {
        proof {
            use_type_invariant(self);
        }
        self.scale.is_zero()
    }
}

impl<R: Real, const N: usize> Clone for ScaledBasisBlade<R, N> {
    fn clone(&self) -> (blade: Self)
        ensures
            blade == *self,
    {
        *self
    }
}

impl<'a, 'b, R: Real, const N: usize> OuterProduct<&'b ScaledBasisBlade<R, N>> for &'a ScaledBasisBlade<R, N> {
    type Output = ScaledBasisBlade<R, N>;

    /// The outer product of two scaled basis blades.
    fn outer(self, rhs: &'b ScaledBasisBlade<R, N>) -> (product: ScaledBasisBlade<R, N>)
        ensures
            product@ == self@.wedge(rhs@),
    {
        let lbs = self.unit_basis_blade().bitset();
        let rbs = rhs.unit_basis_blade().bitset();
        proof {
            lemma_independent_encodings(lbs, rbs);
        }

        // Blades that share a basis vector are linearly dependent.
        if lbs & rbs != 0 {
            return ScaledBasisBlade::zero();
        }
        let scale = self.scale().mul(rhs.scale());
        if scale.is_zero() {
            return ScaledBasisBlade::zero();
        }
        let resulting_bitset = lbs | rbs;
        let total_swaps = count_swaps(lbs, rbs);

        // An odd number of swaps turns the orientation around.
        let scale = if total_swaps % 2 == 0 {
            scale
        } else {
            scale.neg()
        };
        proof {
            lemma_union_fits(lbs, rbs, N as nat);
        }
        ScaledBasisBlade::new(scale, UnitBasisBlade::new(resulting_bitset))
    }
}

impl<'b, R: Real, const N: usize> OuterProduct<&'b ScaledBasisBlade<R, N>> for ScaledBasisBlade<R, N> {
    type Output = ScaledBasisBlade<R, N>;

    fn outer(self, rhs: &'b ScaledBasisBlade<R, N>) -> (product: ScaledBasisBlade<R, N>)
        ensures
            product@ == self@.wedge(rhs@),
    {
        OuterProduct::outer(&self, rhs)
    }
}

impl<'a, R: Real, const N: usize> OuterProduct<ScaledBasisBlade<R, N>> for &'a ScaledBasisBlade<R, N> {
    type Output = ScaledBasisBlade<R, N>;

    fn outer(self, rhs: ScaledBasisBlade<R, N>) -> (product: ScaledBasisBlade<R, N>)
        ensures
            product@ == self@.wedge(rhs@),
    {
        OuterProduct::outer(self, &rhs)
    }
}

impl<R: Real, const N: usize> OuterProduct<ScaledBasisBlade<R, N>> for ScaledBasisBlade<R, N> {
    type Output = ScaledBasisBlade<R, N>;

    fn outer(self, rhs: ScaledBasisBlade<R, N>) -> (product: ScaledBasisBlade<R, N>)
        ensures
            product@ == self@.wedge(rhs@),
    {
        OuterProduct::outer(&self, &rhs)
    }
}

impl<'a, 'b, R: Real, const N: usize> BitXor<&'b ScaledBasisBlade<R, N>> for &'a ScaledBasisBlade<R, N> {
    type Output = ScaledBasisBlade<R, N>;

    /// The outer product, written `&a ^ &b`.
    fn bitxor(self, rhs: &'b ScaledBasisBlade<R, N>) -> (product: ScaledBasisBlade<R, N>)
        ensures
            product@ == self@.wedge(rhs@),
    {
        let product = OuterProduct::outer(self, rhs);
        proof {
            product.lemma_view_inverse(product@);
        }
        product
    }
}

impl<'a, 'b, R: Real, const N: usize> BitXorSpecImpl<&'b ScaledBasisBlade<R, N>> for &'a ScaledBasisBlade<R, N> {
    open spec fn obeys_bitxor_spec() -> bool {
        true
    }

    open spec fn bitxor_req(self, rhs: &'b ScaledBasisBlade<R, N>) -> bool {
        true
    }

    open spec fn bitxor_spec(self, rhs: &'b ScaledBasisBlade<R, N>) -> ScaledBasisBlade<R, N> {
        ScaledBasisBlade::from_view(self@.wedge(rhs@))
    }
}

impl<'b, R: Real, const N: usize> BitXor<&'b ScaledBasisBlade<R, N>> for ScaledBasisBlade<R, N> {
    type Output = ScaledBasisBlade<R, N>;

    /// The outer product, written `a ^ &b`.
    fn bitxor(self, rhs: &'b ScaledBasisBlade<R, N>) -> (product: ScaledBasisBlade<R, N>)
        ensures
            product@ == self@.wedge(rhs@),
    {
        let product = OuterProduct::outer(&self, rhs);
        proof {
            product.lemma_view_inverse(product@);
        }
        product
    }
}

impl<'b, R: Real, const N: usize> BitXorSpecImpl<&'b ScaledBasisBlade<R, N>> for ScaledBasisBlade<R, N> {
    open spec fn obeys_bitxor_spec() -> bool {
        true
    }

    open spec fn bitxor_req(self, rhs: &'b ScaledBasisBlade<R, N>) -> bool {
        true
    }

    open spec fn bitxor_spec(self, rhs: &'b ScaledBasisBlade<R, N>) -> ScaledBasisBlade<R, N> {
        ScaledBasisBlade::from_view(self@.wedge(rhs@))
    }
}

impl<'a, R: Real, const N: usize> BitXor<ScaledBasisBlade<R, N>> for &'a ScaledBasisBlade<R, N> {
    type Output = ScaledBasisBlade<R, N>;

    /// The outer product, written `&a ^ b`.
    fn bitxor(self, rhs: ScaledBasisBlade<R, N>) -> (product: ScaledBasisBlade<R, N>)
        ensures
            product@ == self@.wedge(rhs@),
    {
        let product = OuterProduct::outer(self, &rhs);
        proof {
            product.lemma_view_inverse(product@);
        }
        product
    }
}

impl<'a, R: Real, const N: usize> BitXorSpecImpl<ScaledBasisBlade<R, N>> for &'a ScaledBasisBlade<R, N> {
    open spec fn obeys_bitxor_spec() -> bool {
        true
    }

    open spec fn bitxor_req(self, rhs: ScaledBasisBlade<R, N>) -> bool {
        true
    }

    open spec fn bitxor_spec(self, rhs: ScaledBasisBlade<R, N>) -> ScaledBasisBlade<R, N> {
        ScaledBasisBlade::from_view(self@.wedge(rhs@))
    }
}

impl<R: Real, const N: usize> BitXor<ScaledBasisBlade<R, N>> for ScaledBasisBlade<R, N> {
    type Output = ScaledBasisBlade<R, N>;

    /// The outer product, written `a ^ b`.
    fn bitxor(self, rhs: ScaledBasisBlade<R, N>) -> (product: ScaledBasisBlade<R, N>)
        ensures
            product@ == self@.wedge(rhs@),
    {
        let product = OuterProduct::outer(&self, &rhs);
        proof {
            product.lemma_view_inverse(product@);
        }
        product
    }
}

impl<R: Real, const N: usize> BitXorSpecImpl<ScaledBasisBlade<R, N>> for ScaledBasisBlade<R, N> {
    open spec fn obeys_bitxor_spec() -> bool {
        true
    }

    open spec fn bitxor_req(self, rhs: ScaledBasisBlade<R, N>) -> bool {
        true
    }

    open spec fn bitxor_spec(self, rhs: ScaledBasisBlade<R, N>) -> ScaledBasisBlade<R, N> {
        ScaledBasisBlade::from_view(self@.wedge(rhs@))
    }
}

impl<R: Real, const N: usize> From<UnitBasisBlade<N>> for ScaledBasisBlade<R, N> {
    /// The unit blade with the scalar one.
    fn from(unit_basis_blade: UnitBasisBlade<N>) -> (blade: Self)
        ensures
            blade@ == Blade::canonical(R::one_spec(), unit_basis_blade@),
    {
        let blade = ScaledBasisBlade::new(R::one(), unit_basis_blade);
        proof {
            blade.lemma_view_inverse(blade@);
        }
        blade
    }
}

impl<R: Real, const N: usize> FromSpecImpl<UnitBasisBlade<N>> for ScaledBasisBlade<R, N> {
    open spec fn obeys_from_spec() -> bool {
        true
    }

    open spec fn from_spec(unit_basis_blade: UnitBasisBlade<N>) -> Self {
        Self::from_view(Blade::canonical(R::one_spec(), unit_basis_blade@))
    }
}

impl<R: Real, const N: usize> From<(R, UnitBasisBlade<N>)> for ScaledBasisBlade<R, N> {
    /// The blade that a scalar and a unit blade stand for.
    fn from(tuple: (R, UnitBasisBlade<N>)) -> (blade: Self)
        ensures
            blade@ == Blade::canonical(tuple.0, tuple.1@),
    {
        let (scale, unit_basis_blade) = tuple;
        let blade = ScaledBasisBlade::new(scale, unit_basis_blade);
        proof {
            blade.lemma_view_inverse(blade@);
        }
        blade
    }
}

impl<R: Real, const N: usize> FromSpecImpl<(R, UnitBasisBlade<N>)> for ScaledBasisBlade<R, N> {
    open spec fn obeys_from_spec() -> bool {
        true
    }

    open spec fn from_spec(tuple: (R, UnitBasisBlade<N>)) -> Self {
        Self::from_view(Blade::canonical(tuple.0, tuple.1@))
    }
}

impl<R: Real, const N: usize> Default for ScaledBasisBlade<R, N> {
    /// The zero blade.
    fn default() -> (blade: Self)
        ensures
            blade@ == Blade::<R>::zero(),
    {
        Self::zero()
    }
}

} // verus!
