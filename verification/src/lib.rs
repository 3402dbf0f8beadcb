//! Exterior (outer) products of scaled basis blades over a fixed orthonormal basis.
//!
//! A unit basis blade is encoded as a set of bits, one bit per basis vector.  A scaled
//! basis blade pairs such an encoding with a scalar.  The outer product of two scaled
//! basis blades is zero when they share a basis vector; otherwise it is the union of
//! their basis vectors, scaled by the product of the scalars and signed by the parity of
//! the transpositions that bring the factors into ascending order.

pub mod algebra;
pub mod dimension;
pub mod notation;
pub mod num;
pub mod ops;
pub mod orientation;
pub mod scaled_basis_blade;
pub mod unit_basis_blade;

pub use crate::algebra::Blade;
pub use crate::num::Real;
pub use crate::ops::{GeometricProduct, OuterProduct};
pub use crate::scaled_basis_blade::ScaledBasisBlade;
pub use crate::unit_basis_blade::UnitBasisBlade;
