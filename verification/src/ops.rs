//! The products of geometric algebra, as operations that a type can offer.

use vstd::prelude::*;

verus! {

/// The geometric product of `self` and `rhs`.
pub trait GeometricProduct<RHS = Self> {
    type Output;

    fn geom(self, rhs: RHS) -> Self::Output;
}

/// The outer (exterior, wedge) product of `self` and `rhs`.
pub trait OuterProduct<RHS = Self> {
    type Output;

    fn outer(self, rhs: RHS) -> Self::Output;
}

} // verus!
