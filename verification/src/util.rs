//! Small arithmetic helpers shared by the adapters and the copy algorithm.

use vstd::prelude::*;

verus! {

/// The smaller of two frame counts.
pub open spec fn min_usize(a: usize, b: usize) -> usize {
    if a <= b {
        a
    } else {
        b
    }
}

/// Subtraction on frame counts that saturates at zero instead of underflowing.
pub open spec fn sat_sub_usize(a: usize, b: usize) -> usize {
    if a >= b {
        (a - b) as usize
    } else {
        0
    }
}

/// The smaller of two frame counts, executable form.
pub fn umin(a: usize, b: usize) -> (r: usize)
    ensures
        r == min_usize(a, b),
{
    if a <= b {
        a
    } else {
        b
    }
}

/// Saturating subtraction on frame counts, executable form.
pub fn usat_sub(a: usize, b: usize) -> (r: usize)
    ensures
        r == sat_sub_usize(a, b),
{
    if a >= b {
        a - b
    } else {
        0
    }
}

/// Multiplying the larger of two non-negative factors by a common
/// non-negative factor yields the larger product.
pub proof fn lemma_mul_le_mono(a: int, b: int, c: int)
    by (nonlinear_arith)
    requires
        0 <= a <= b,
        0 <= c,
    ensures
        a * c <= b * c,
{
}

/// Multiplication distributes over addition.
pub proof fn lemma_mul_distrib(a: int, b: int, c: int)
    by (nonlinear_arith)
    ensures
        (a + b) * c == a * c + b * c,
{
}

/// A sample index stays inside the grid.
pub proof fn lemma_grid_index_bound(f: int, c: int, frames: int, channels: int)
    by (nonlinear_arith)
    requires
        0 <= f < frames,
        0 <= c < channels,
    ensures
        0 <= f * channels + c < frames * channels,
{
}

/// Distinct (frame, channel) pairs occupy distinct sample indices.
pub proof fn lemma_grid_index_injective(f1: int, c1: int, f2: int, c2: int, channels: int)
    by (nonlinear_arith)
    requires
        0 <= c1 < channels,
        0 <= c2 < channels,
        0 <= f1,
        0 <= f2,
        f1 * channels + c1 == f2 * channels + c2,
    ensures
        f1 == f2,
        c1 == c2,
{
}

} // verus!
