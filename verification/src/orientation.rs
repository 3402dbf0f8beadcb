//! Orientation of an outer product: how many transpositions sort its factors.
//!
//! Writing out the basis vectors of the left blade followed by those of the right blade,
//! each pair made of a left vector and a right vector with a smaller index stands for one
//! adjacent transposition on the way to ascending order.  The parity of their number is
//! the sign of the product.

use vstd::prelude::*;
use crate::dimension::{
    count_bits, grade, has_vector, independent, lemma_below_bound, lemma_below_empty,
    lemma_below_halved, lemma_grade_halved, lemma_vector_halved, vectors_below,
};

verus! {

/// The number of pairs `(i, j)` with `i < n`, basis vector `i` in `lhs`, basis vector `j`
/// in `rhs`, and `j < i`.
pub open spec fn swaps_below(lhs: u64, rhs: u64, n: nat) -> nat
    decreases n,
{
    if n == 0 {
        0
    } else {
        swaps_below(lhs, rhs, (n - 1) as nat) + if has_vector(lhs, (n - 1) as nat) {
            vectors_below(rhs, (n - 1) as nat)
        } else {
            0nat
        }
    }
}

/// The number of transpositions that sort the factors of `lhs` followed by those of `rhs`:
/// the pairs of a basis vector of `lhs` and a basis vector of `rhs` with a smaller index.
pub open spec fn swap_count(lhs: u64, rhs: u64) -> nat {
    swaps_below(lhs, rhs, 64)
}

/// Halving both blades drops the pairs whose right vector is the lowest one: if `rhs`
/// holds it, there is one such pair for each vector of `lhs` above the lowest position.
pub proof fn lemma_swaps_below_halved(lhs: u64, rhs: u64, n: nat)
    ensures
        swaps_below(lhs, rhs, n + 1) == swaps_below(lhs / 2, rhs / 2, n) + if rhs % 2 == 1 {
            vectors_below(lhs / 2, n)
        } else {
            0nat
        },
    decreases n,
{
    if n == 0 {
        assert(swaps_below(lhs, rhs, 1) == swaps_below(lhs, rhs, 0) + if has_vector(lhs, 0) {
            vectors_below(rhs, 0)
        } else {
            0nat
        });
    } else {
        let m = (n - 1) as nat;
        lemma_swaps_below_halved(lhs, rhs, m);
        lemma_vector_halved(lhs, m);
        lemma_below_halved(rhs, m);
    }
}

/// The recursion that `swap_count` obeys when both blades are halved, and its value on
/// the empty blade.
pub proof fn lemma_swap_count_halved(lhs: u64, rhs: u64)
    ensures
        swap_count(lhs, rhs) == swap_count(lhs / 2, rhs / 2) + if rhs % 2 == 1 {
            grade(lhs / 2)
        } else {
            0nat
        },
        swap_count(0, rhs) == 0,
        swap_count(lhs, 0) == 0,
{
    lemma_swaps_below_halved(lhs, rhs, 63);
    lemma_vector_halved(lhs, 63);
    assert(swaps_below(lhs / 2, rhs / 2, 64) == swaps_below(lhs / 2, rhs / 2, 63) + 0);
    assert(vectors_below(lhs / 2, 64) == vectors_below(lhs / 2, 63) + 0);
    lemma_swaps_below_empty(lhs, rhs, 64);
}

/// Without basis vectors on either side there is nothing to transpose.
proof fn lemma_swaps_below_empty(lhs: u64, rhs: u64, n: nat)
    ensures
        swaps_below(0, rhs, n) == 0,
        swaps_below(lhs, 0, n) == 0,
    decreases n,
{
    if n > 0 {
        lemma_swaps_below_empty(lhs, rhs, (n - 1) as nat);
        lemma_below_empty((n - 1) as nat);
        if n <= 64 {
            let k = (n - 1) as u64;
            assert((0u64 >> k) & 1 != 1) by (bit_vector);
        }
    }
}

/// Each of the `n` lowest positions of `lhs` contributes fewer than 64 transpositions.
proof fn lemma_swaps_below_bound(lhs: u64, rhs: u64, n: nat)
    requires
        n <= 64,
    ensures
        swaps_below(lhs, rhs, n) <= 64 * n,
    decreases n,
{
    if n > 0 {
        lemma_swaps_below_bound(lhs, rhs, (n - 1) as nat);
        lemma_below_bound(rhs, (n - 1) as nat);
    }
}

/// Between two independent blades every pair of a left and a right vector is out of order
/// in exactly one of the two products, so the two swap counts add up to the product of
/// the grades.
pub proof fn lemma_swap_count_transposed(lhs: u64, rhs: u64)
    requires
        independent(lhs, rhs),
    ensures
        swap_count(lhs, rhs) + swap_count(rhs, lhs) == grade(lhs) * grade(rhs),
    decreases lhs + rhs,
{
    lemma_swap_count_halved(lhs, rhs);
    lemma_swap_count_halved(rhs, lhs);
    lemma_grade_halved(lhs);
    lemma_grade_halved(rhs);
    if lhs != 0 || rhs != 0 {
        let (l, r) = (lhs / 2, rhs / 2);
        assert(independent(l, r)) by {
            assert forall|i: nat| !(has_vector(l, i) && has_vector(r, i)) by {
                lemma_vector_halved(lhs, i);
                lemma_vector_halved(rhs, i);
            }
        }
        assert(!(lhs % 2 == 1 && rhs % 2 == 1)) by {
            lemma_vector_halved(lhs, 0);
            lemma_vector_halved(rhs, 0);
        }
        lemma_swap_count_transposed(l, r);
        let (gl, gr) = (grade(l), grade(r));
        assert((1 + gl) * gr == gr + gl * gr) by (nonlinear_arith);
        assert(gl * (1 + gr) == gl + gl * gr) by (nonlinear_arith);
    } else {
        assert(grade(lhs) * grade(rhs) == 0) by (nonlinear_arith)
            requires
                grade(lhs) == 0,
        ;
    }
}

/// What is left to count once `lhs` has been shifted: the overlaps of `rhs` with every
/// further right shift of `lhs`.
spec fn shifted_overlaps(lhs: u64, rhs: u64) -> nat
    decreases lhs,
{
    if lhs <= 1 {
        0
    } else {
        grade((lhs / 2) & rhs) + shifted_overlaps(lhs / 2, rhs)
    }
}

/// Halving both blades takes from the overlaps those with the lowest vector of `rhs`.
proof fn lemma_shifted_overlaps_halved(lhs: u64, rhs: u64)
    ensures
        shifted_overlaps(lhs, rhs) == shifted_overlaps(lhs / 2, rhs / 2) + if rhs % 2 == 1 {
            grade(lhs / 2)
        } else {
            0nat
        },
    decreases lhs,
{
    let half = lhs / 2;
    lemma_grade_halved(half);
    if lhs <= 1 {
        assert(half == 0);
    } else {
        lemma_shifted_overlaps_halved(half, rhs);
        lemma_grade_halved(half & rhs);
        assert((half & rhs) / 2 == (half / 2) & (rhs / 2)) by (bit_vector);
        assert((half & rhs) % 2 == if rhs % 2 == 1 {
            half % 2
        } else {
            0
        }) by (bit_vector);
        if half <= 1 {
            assert(half / 2 == 0);
            assert(0u64 & (rhs / 2) == 0) by (bit_vector);
        }
    }
}

/// The overlaps of the shifted left blade with the right blade add up to the swap count.
proof fn lemma_shifted_overlaps_count(lhs: u64, rhs: u64)
    ensures
        shifted_overlaps(lhs, rhs) == swap_count(lhs, rhs),
    decreases lhs,
{
    lemma_swap_count_halved(lhs, rhs);
    lemma_shifted_overlaps_halved(lhs, rhs);
    if lhs != 0 {
        lemma_shifted_overlaps_count(lhs / 2, rhs / 2);
    }
}

/// Counts the transpositions that sort the factors of `lhs` followed by those of `rhs`.
pub fn count_swaps(lhs: u64, rhs: u64) -> (total_swaps: u32)
    ensures
        total_swaps == swap_count(lhs, rhs),
{
    let mut lbs: u64 = lhs;
    let mut total_swaps: u32 = 0;
    proof {
        lemma_shifted_overlaps_count(lhs, rhs);
        lemma_swaps_below_bound(lhs, rhs, 64);
    }
    while lbs > 1
        invariant
            total_swaps + shifted_overlaps(lbs, rhs) == shifted_overlaps(lhs, rhs),
            shifted_overlaps(lhs, rhs) == swap_count(lhs, rhs),
            swap_count(lhs, rhs) <= 4096,
        decreases lbs,
    {
        proof {
            assert(lbs >> 1 == lbs / 2) by (bit_vector);
        }
        lbs = lbs >> 1;
        total_swaps = total_swaps + count_bits(lbs & rhs);
    }
    total_swaps
}

} // verus!
