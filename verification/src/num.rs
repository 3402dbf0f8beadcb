//! The scalars that scale a basis blade.

use vstd::prelude::*;
use vstd::wrapping::i64_specs::{wrapping_mul, wrapping_sub};

verus! {

/// A commutative ring of scalars, as far as products of basis blades need one: a zero, a
/// one, negation, multiplication, and a test for zero.
///
/// The laws stated here are what the products of blades rest on.  An implementation
/// proves them of its own operations.
pub trait Real: Copy + Sized {
    /// The additive identity.
    spec fn zero_spec() -> Self;

    /// The multiplicative identity.
    spec fn one_spec() -> Self;

    /// The additive inverse of `self`.
    spec fn neg_spec(self) -> Self;

    /// The product of `self` and `rhs`.
    spec fn mul_spec(self, rhs: Self) -> Self;

    /// One differs from zero.
    proof fn lemma_one_is_not_zero()
        ensures
            Self::one_spec() != Self::zero_spec(),
    ;

    /// Multiplication is commutative.
    proof fn lemma_mul_commutes(a: Self, b: Self)
        ensures
            a.mul_spec(b) == b.mul_spec(a),
    ;

    /// Zero absorbs every factor.
    proof fn lemma_mul_by_zero(a: Self)
        ensures
            Self::zero_spec().mul_spec(a) == Self::zero_spec(),
    ;

    /// Negating twice gives the scalar back.
    proof fn lemma_neg_twice(a: Self)
        ensures
            a.neg_spec().neg_spec() == a,
    ;

    /// Zero is its own negative.
    proof fn lemma_neg_of_zero()
        ensures
            Self::zero_spec().neg_spec() == Self::zero_spec(),
    ;

    /// The additive identity.
    fn zero() -> (r: Self)
        ensures
            r == Self::zero_spec(),
    ;

    /// The multiplicative identity.
    fn one() -> (r: Self)
        ensures
            r == Self::one_spec(),
    ;

    /// Whether the scalar is zero.
    fn is_zero(&self) -> (b: bool)
        ensures
            b == (*self == Self::zero_spec()),
    ;

    /// The additive inverse.
    fn neg(self) -> (r: Self)
        ensures
            r == self.neg_spec(),
    ;

    /// The product with `rhs`.
    fn mul(self, rhs: Self) -> (r: Self)
        ensures
            r == self.mul_spec(rhs),
    ;
}

/// The integers modulo 2^64 in two's complement: products and negatives wrap around.
impl Real for i64 {
    open spec fn zero_spec() -> i64 {
        0
    }

    open spec fn one_spec() -> i64 {
        1
    }

    open spec fn neg_spec(self) -> i64 {
        wrapping_sub(0, self)
    }

    open spec fn mul_spec(self, rhs: i64) -> i64 {
        wrapping_mul(self, rhs)
    }

    proof fn lemma_one_is_not_zero() {
    }

    proof fn lemma_mul_commutes(a: i64, b: i64) {
        assert(a * b == b * a) by (nonlinear_arith);
    }

    proof fn lemma_mul_by_zero(a: i64) {
        assert(0 * a == 0) by (nonlinear_arith);
    }

    proof fn lemma_neg_twice(a: i64) {
    }

    proof fn lemma_neg_of_zero() {
    }

    fn zero() -> i64 {
        0
    }

    fn one() -> i64 {
        1
    }

    fn is_zero(&self) -> bool {
        *self == 0
    }

    fn neg(self) -> i64 {
        0i64.wrapping_sub(self)
    }

    fn mul(self, rhs: i64) -> i64 {
        self.wrapping_mul(rhs)
    }
}

} // verus!
