//! Bit-encodings of basis blades, and the dimension that bounds them.
//!
//! An encoding is a `u64` in which bit `i` stands for basis vector `i + 1`.  A space of
//! `n` dimensions admits the encodings whose set bits all lie below position `n`.

use vstd::prelude::*;

verus! {

/// Whether the basis vector at position `i` (counted from 0) is a factor of the blade.
pub open spec fn has_vector(bitset: u64, i: nat) -> bool {
    i < 64 && (bitset >> (i as u64)) & 1 == 1
}

/// Whether every basis vector of the blade lies inside a space of `n` dimensions.
pub open spec fn fits(bitset: u64, n: nat) -> bool {
    forall|i: nat| has_vector(bitset, i) ==> i < n
}

/// Whether two blades are linearly independent: no basis vector is a factor of both.
pub open spec fn independent(lhs: u64, rhs: u64) -> bool {
    forall|i: nat| !(has_vector(lhs, i) && has_vector(rhs, i))
}

/// How many basis vectors of the blade lie at a position below `i`.
pub open spec fn vectors_below(bitset: u64, i: nat) -> nat
    decreases i,
{
    if i == 0 {
        0
    } else {
        vectors_below(bitset, (i - 1) as nat) + if has_vector(bitset, (i - 1) as nat) {
            1nat
        } else {
            0nat
        }
    }
}

/// The grade of the blade: how many basis vectors it is made of.
pub open spec fn grade(bitset: u64) -> nat {
    vectors_below(bitset, 64)
}

/// The lowest position of an encoding is its parity, and the position above `i` is
/// position `i` of the encoding halved.
pub proof fn lemma_vector_halved(bitset: u64, i: nat)
    ensures
        has_vector(bitset, 0) == (bitset % 2 == 1),
        has_vector(bitset, i + 1) == has_vector(bitset / 2, i),
        !has_vector(bitset / 2, 63),
{
    assert(((bitset >> 0) & 1 == 1) == (bitset % 2 == 1)) by (bit_vector);
    assert(((bitset / 2) >> 63) & 1 != 1) by (bit_vector);
    if i < 63 {
        let k = i as u64;
        let k1 = (i + 1) as u64;
        assert((bitset >> k1) & 1 == ((bitset / 2) >> k) & 1) by (bit_vector)
            requires
                k < 63,
                k1 == k + 1,
        ;
    }
}

/// Below position `i + 1` an encoding holds its lowest vector, if any, and what its half
/// holds below position `i`.
pub proof fn lemma_below_halved(bitset: u64, i: nat)
    ensures
        vectors_below(bitset, i + 1) == bitset % 2 + vectors_below(bitset / 2, i),
    decreases i,
{
    lemma_vector_halved(bitset, 0);
    if i > 0 {
        lemma_below_halved(bitset, (i - 1) as nat);
        lemma_vector_halved(bitset, (i - 1) as nat);
    } else {
        assert(vectors_below(bitset, 1) == vectors_below(bitset, 0) + if has_vector(bitset, 0) {
            1nat
        } else {
            0nat
        });
    }
}

/// No more than `i` basis vectors lie below position `i`.
pub proof fn lemma_below_bound(bitset: u64, i: nat)
    ensures
        vectors_below(bitset, i) <= i,
    decreases i,
{
    if i > 0 {
        lemma_below_bound(bitset, (i - 1) as nat);
    }
}

/// The blade without basis vectors has none below any position.
pub proof fn lemma_below_empty(i: nat)
    ensures
        vectors_below(0, i) == 0,
    decreases i,
{
    if i > 0 {
        lemma_below_empty((i - 1) as nat);
        if i <= 64 {
            let k = (i - 1) as u64;
            assert((0u64 >> k) & 1 != 1) by (bit_vector);
        }
    }
}

/// The grade counts the lowest vector, if any, and the grade of the encoding halved; the
/// empty encoding has grade 0, and no grade exceeds 64.
pub proof fn lemma_grade_halved(bitset: u64)
    ensures
        grade(bitset) == bitset % 2 + grade(bitset / 2),
        grade(0) == 0,
        grade(bitset) <= 64,
{
    lemma_below_halved(bitset, 63);
    lemma_vector_halved(bitset, 63);
    assert(vectors_below(bitset / 2, 64) == vectors_below(bitset / 2, 63) + 0);
    lemma_below_empty(64);
    lemma_below_bound(bitset, 64);
}

/// A basis vector of a blade that is not empty.
pub proof fn lemma_some_vector(bitset: u64) -> (i: nat)
    requires
        bitset != 0,
    ensures
        has_vector(bitset, i),
    decreases bitset,
{
    lemma_vector_halved(bitset, 0);
    if bitset % 2 == 1 {
        0
    } else {
        let j = lemma_some_vector(bitset / 2);
        lemma_vector_halved(bitset, j);
        j + 1
    }
}

/// The basis vectors of `lhs | rhs`, `lhs & rhs` and `lhs ^ rhs` at position `i`, and of
/// the empty blade.
pub proof fn lemma_vector_of_combination(lhs: u64, rhs: u64, i: nat)
    ensures
        has_vector(lhs | rhs, i) == (has_vector(lhs, i) || has_vector(rhs, i)),
        has_vector(lhs & rhs, i) == (has_vector(lhs, i) && has_vector(rhs, i)),
        has_vector(lhs ^ rhs, i) == (has_vector(lhs, i) != has_vector(rhs, i)),
        !has_vector(0, i),
{
    if i < 64 {
        let k = i as u64;
        assert(((lhs | rhs) >> k) & 1 == 1 <==> ((lhs >> k) & 1 == 1 || (rhs >> k) & 1 == 1))
            by (bit_vector);
        assert(((lhs & rhs) >> k) & 1 == 1 <==> ((lhs >> k) & 1 == 1 && (rhs >> k) & 1 == 1))
            by (bit_vector);
        assert(((lhs ^ rhs) >> k) & 1 == 1 <==> ((lhs >> k) & 1 == 1) != ((rhs >> k) & 1 == 1))
            by (bit_vector);
        assert((0u64 >> k) & 1 != 1) by (bit_vector);
    }
}

/// An encoding is determined by the basis vectors it holds.
pub proof fn lemma_vectors_determine_encoding(lhs: u64, rhs: u64)
    requires
        forall|i: nat| has_vector(lhs, i) == has_vector(rhs, i),
    ensures
        lhs == rhs,
{
    if lhs ^ rhs != 0 {
        let i = lemma_some_vector(lhs ^ rhs);
        lemma_vector_of_combination(lhs, rhs, i);
    }
    assert(lhs ^ rhs == 0 ==> lhs == rhs) by (bit_vector);
}

/// Two blades are independent exactly when their encodings have no bit in common.
pub proof fn lemma_independent_encodings(lhs: u64, rhs: u64)
    ensures
        independent(lhs, rhs) <==> lhs & rhs == 0,
        independent(lhs, rhs) <==> independent(rhs, lhs),
{
    if lhs & rhs != 0 {
        let i = lemma_some_vector(lhs & rhs);
        lemma_vector_of_combination(lhs, rhs, i);
    } else {
        assert forall|i: nat| !(has_vector(lhs, i) && has_vector(rhs, i)) by {
            lemma_vector_of_combination(lhs, rhs, i);
        }
    }
}

/// The union of two blades does not depend on their order, and is empty only if both are.
pub proof fn lemma_union_encodings(lhs: u64, rhs: u64)
    ensures
        lhs | rhs == rhs | lhs,
        (lhs | rhs == 0) <==> (lhs == 0 && rhs == 0),
{
    assert(lhs | rhs == rhs | lhs) by (bit_vector);
    assert((lhs | rhs == 0) <==> (lhs == 0 && rhs == 0)) by (bit_vector);
}

/// The union of two blades of a space lies in that space.
pub proof fn lemma_union_fits(lhs: u64, rhs: u64, n: nat)
    requires
        fits(lhs, n),
        fits(rhs, n),
    ensures
        fits(lhs | rhs, n),
{
    assert forall|i: nat| has_vector(lhs | rhs, i) implies i < n by {
        lemma_vector_of_combination(lhs, rhs, i);
    }
}

/// The empty blade lies in every space.
pub proof fn lemma_empty_fits(n: nat)
    ensures
        fits(0, n),
{
    assert forall|i: nat| has_vector(0, i) implies i < n by {
        lemma_vector_of_combination(0, 0, i);
    }
}

/// An encoding lies in a space of `n` dimensions exactly when nothing is left of it after
/// a shift by `n` positions.  A space of 64 dimensions or more holds every encoding.
pub proof fn lemma_fits_shifted(bitset: u64, n: nat)
    ensures
        fits(bitset, n) <==> (n >= 64 || bitset >> (n as u64) == 0),
{
    if n < 64 {
        let m = n as u64;
        let rest = bitset >> m;
        if rest == 0 {
            assert forall|i: nat| has_vector(bitset, i) implies i < n by {
                let k = i as u64;
                assert((bitset >> k) & 1 == 1 ==> k < m) by (bit_vector)
                    requires
                        bitset >> m == 0,
                        m < 64,
                        k < 64,
                ;
            }
        } else {
            let j = lemma_some_vector(rest);
            let k = j as u64;
            let above = (n + j) as u64;
            assert(m + k < 64 && (bitset >> above) & 1 == 1) by (bit_vector)
                requires
                    ((bitset >> m) >> k) & 1 == 1,
                    m < 64,
                    k < 64,
                    above == m + k,
            ;
            assert(has_vector(bitset, n + j));
        }
    }
}

/// Whether an encoding lies in a space of `n` dimensions.
pub fn in_dimension(bitset: u64, n: usize) -> (b: bool)
    ensures
        b == fits(bitset, n as nat),
{
    proof {
        lemma_fits_shifted(bitset, n as nat);
    }
    n >= 64 || bitset >> n == 0
}

/// The part of an encoding that lies in a space of `n` dimensions.
pub open spec fn truncated(bitset: u64, n: nat) -> u64 {
    if n >= 64 {
        bitset
    } else {
        bitset & (((1u64 << (n as u64)) - 1) as u64)
    }
}

/// Truncating an encoding keeps the basis vectors that lie in the space and no others;
/// an encoding of the space is left as it is.
pub proof fn lemma_truncated(bitset: u64, n: nat)
    ensures
        forall|i: nat| has_vector(truncated(bitset, n), i) == (has_vector(bitset, i) && i < n),
        fits(truncated(bitset, n), n),
        fits(bitset, n) ==> truncated(bitset, n) == bitset,
{
    let kept = truncated(bitset, n);
    assert forall|i: nat| has_vector(kept, i) == (has_vector(bitset, i) && i < n) by {
        if n < 64 && i < 64 {
            let k = i as u64;
            let m = n as u64;
            assert(((bitset & (((1u64 << m) - 1) as u64)) >> k) & 1 == 1 <==> ((bitset >> k) & 1
                == 1 && k < m)) by (bit_vector)
                requires
                    m < 64,
                    k < 64,
            ;
        }
    }
    if fits(bitset, n) {
        lemma_vectors_determine_encoding(kept, bitset);
    }
}

/// Drops from an encoding the basis vectors that lie outside a space of `n` dimensions.
pub fn truncate(bitset: u64, n: usize) -> (kept: u64)
    ensures
        kept == truncated(bitset, n as nat),
        forall|i: nat| has_vector(kept, i) == (has_vector(bitset, i) && i < n),
        fits(kept, n as nat),
        fits(bitset, n as nat) ==> kept == bitset,
{
    proof {
        lemma_truncated(bitset, n as nat);
    }
    if n >= 64 {
        bitset
    } else {
        proof {
            let m = n as u64;
            assert(1u64 << m >= 1) by (bit_vector)
                requires
                    m < 64,
            ;
        }
        bitset & ((1u64 << n) - 1)
    }
}

/// Counts the basis vectors of a blade.
pub fn count_bits(bitset: u64) -> (n: u32)
    ensures
        n == grade(bitset),
{
    let mut rest: u64 = bitset;
    let mut n: u32 = 0;
    while rest != 0
        invariant
            n + grade(rest) == grade(bitset),
        decreases rest,
    {
        proof {
            lemma_grade_halved(bitset);
            lemma_grade_halved(rest);
            assert(rest & 1 == rest % 2) by (bit_vector);
            assert(rest >> 1 == rest / 2) by (bit_vector);
        }
        n = n + (rest & 1) as u32;
        rest = rest >> 1;
    }
    proof {
        lemma_grade_halved(0);
    }
    n
}

} // verus!
