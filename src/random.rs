//! Draws from the thread-local random generator.

use vstd::prelude::*;

verus! {

/// Relies on `rand::Rng::gen_range` over `rand::thread_rng()`: a value in
/// `[lo, hi)`; it panics on an empty range.
#[verifier::external_body]
pub(crate) fn random_range(lo: u64, hi: u64) -> (r: u64)
    requires
        lo < hi,
    ensures
        lo <= r < hi,
{
    rand::Rng::gen_range(&mut rand::thread_rng(), lo..hi)
}

/// Sum of the first `n` weights.
pub open spec fn weight_sum(w: Seq<u32>, n: int) -> int
    decreases n,
{
    if n <= 0 {
        0
    } else {
        weight_sum(w, n - 1) + w[n - 1]
    }
}

/// Some weight is positive.
pub open spec fn has_positive(w: Seq<u32>) -> bool {
    exists|i: int| 0 <= i < w.len() && w[i] > 0
}

/// Relies on `rand::seq::SliceRandom::choose_weighted` over
/// `rand::thread_rng()`: it fails only where there is no weight or every
/// weight is zero, and otherwise picks an item of positive weight. The total
/// is summed in the weights' own type, so it must fit in `u32`.
#[verifier::external_body]
pub(crate) fn pick_weighted(weights: &Vec<u32>) -> (r: Option<usize>)
    requires
        weight_sum(weights@, weights@.len() as int) <= u32::MAX,
    ensures
        r.is_some() <==> has_positive(weights@),
        r.is_some() ==> r.unwrap() < weights@.len() && weights@[r.unwrap() as int] > 0,
{
    let items: Vec<(usize, u32)> = weights.iter().copied().enumerate().collect();
    rand::seq::SliceRandom::choose_weighted(&items[..], &mut rand::thread_rng(), |e| e.1)
        .ok()
        .map(|e| e.0)
}

} // verus!
