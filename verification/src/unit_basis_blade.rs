//! Unit basis blades: products of distinct basis vectors, without a scalar.

use vstd::prelude::*;
use vstd::std_specs::convert::FromSpecImpl;
use crate::dimension::{fits, has_vector, lemma_empty_fits, truncate, truncated};
use crate::notation::{symbols, symbols_below};

verus! {

/// A unit basis blade of a space of `N` dimensions.
///
/// Bit `i` of the encoding is set exactly when basis vector `i + 1` is a factor of the
/// blade.  The blade without factors serves as the zero blade.  No bit at or beyond
/// position `N` is ever set.
#[derive(Clone, Copy, PartialEq, Eq, Debug)]
pub struct UnitBasisBlade<const N: usize> {
    bitset: u64,
}

impl<const N: usize> View for UnitBasisBlade<N> {
    type V = u64;

    /// The encoding of the blade.
    closed spec fn view(&self) -> u64 {
        self.bitset
    }
}

impl<const N: usize> UnitBasisBlade<N> {
    /// Every basis vector of the blade lies in the space.
    #[verifier::type_invariant]
    pub open spec fn wf(self) -> bool {
        fits(self@, N as nat)
    }

    /// The blade with the given encoding.
    pub closed spec fn from_view(bitset: u64) -> Self {
        UnitBasisBlade { bitset }
    }

    /// A blade and its encoding determine each other.
    pub proof fn lemma_view_inverse(self, bitset: u64)
        ensures
            Self::from_view(self@) == self,
            Self::from_view(bitset)@ == bitset,
    {
    }

    /// The zero unit blade, which has no basis vector.
    pub fn zero() -> (blade: Self)
        ensures
            blade@ == 0,
    {
        proof {
            lemma_empty_fits(N as nat);
        }
        UnitBasisBlade { bitset: 0 }
    }

    /// The unit blade with the given encoding, which must lie in the space.
    pub fn new(bitset: u64) -> (blade: Self)
        requires
            fits(bitset, N as nat),
        ensures
            blade@ == bitset,
    {
        UnitBasisBlade { bitset }
    }

    /// Whether this is the zero unit blade.
    pub fn is_zero(&self) -> (b: bool)
        ensures
            b == (self@ == 0),
    {
        self.bitset == 0
    }

    /// The encoding of the blade.
    pub fn bitset(&self) -> (bitset: u64)
        ensures
            bitset == self@,
            fits(bitset, N as nat),
    {
        proof {
            use_type_invariant(self);
        }
        self.bitset
    }

    /// For each basis vector of the space, in ascending order, whether it is a factor of
    /// the blade.
    pub fn basis_vectors(&self) -> (present: Vec<bool>)
        ensures
            present@.len() == N,
            forall|i: int| 0 <= i < N ==> present@[i] == has_vector(self@, i as nat),
    {
        let mut present: Vec<bool> = Vec::new();
        let mut i: usize = 0;
        while i < N
            invariant
                i <= N,
                present@.len() == i,
                forall|j: int| 0 <= j < i ==> present@[j] == has_vector(self@, j as nat),
            decreases N - i,
        {
            let bit: bool = i < 64 && (self.bitset >> i) & 1 == 1;
            present.push(bit);
            i = i + 1;
        }
        present
    }

    /// The blade written as the symbols of its basis vectors, in ascending order.
    pub fn symbols(&self) -> (text: String)
        ensures
            text@ == symbols_below(self@, N as nat),
    {
        symbols(self.bitset, N)
    }
}

impl<const N: usize> From<u64> for UnitBasisBlade<N> {
    /// The unit blade made of the basis vectors of the encoding that lie in the space.
    fn from(bitset: u64) -> (blade: Self)
        ensures
            blade@ == truncated(bitset, N as nat),
    {
        UnitBasisBlade { bitset: truncate(bitset, N) }
    }
}

impl<const N: usize> FromSpecImpl<u64> for UnitBasisBlade<N> {
    open spec fn obeys_from_spec() -> bool {
        true
    }

    open spec fn from_spec(bitset: u64) -> Self {
        Self::from_view(truncated(bitset, N as nat))
    }
}

impl<const N: usize> Default for UnitBasisBlade<N> {
    /// The zero unit blade.
    fn default() -> (blade: Self)
        ensures
            blade@ == 0,
    {
        Self::zero()
    }
}

} // verus!
