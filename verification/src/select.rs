//! Weighted selection: one entry of a listing, drawn with probability
//! proportional to its weight.

use vstd::prelude::*;
use rand::distributions::{IndependentSample, Range};
use crate::error::Error;
use crate::weights::{OptionWeight, NamedWeight, weights_of};

verus! {

/// The sum of all the weights.
pub open spec fn total_weight(weights: Seq<NamedWeight>) -> int
    decreases weights.len(),
{
    if weights.len() == 0 {
        0
    } else {
        total_weight(weights.drop_last()) + weights.last().weight
    }
}

/// The sum of the first `k` weights.
pub open spec fn cumulative(weights: Seq<NamedWeight>, k: int) -> int {
    total_weight(weights.take(k))
}

/// No weight is negative.
pub open spec fn non_negative(weights: Seq<NamedWeight>) -> bool {
    forall|i: int| 0 <= i < weights.len() ==> (#[trigger] weights[i]).weight >= 0
}

/// Entry `i` is the first whose cumulative sum, itself included, exceeds `draw`.
pub open spec fn selects(weights: Seq<NamedWeight>, draw: int, i: int) -> bool {
    &&& 0 <= i < weights.len()
    &&& cumulative(weights, i + 1) > draw
    &&& forall|j: int| 0 < j <= i ==> #[trigger] cumulative(weights, j) <= draw
}

/// One more entry adds its weight to the cumulative sum.
pub proof fn lemma_cumulative_step(weights: Seq<NamedWeight>, k: int)
    requires
        0 <= k < weights.len(),
    ensures
        cumulative(weights, k + 1) == cumulative(weights, k) + weights[k].weight,
        cumulative(weights, 0) == 0,
{
    assert(weights.take(k + 1).drop_last() =~= weights.take(k));
}

/// Cumulative sums of weights that are not negative never fall.
pub proof fn lemma_cumulative_monotone(weights: Seq<NamedWeight>, i: int, j: int)
    requires
        non_negative(weights),
        0 <= i <= j <= weights.len(),
    ensures
        cumulative(weights, i) <= cumulative(weights, j),
        cumulative(weights, weights.len() as int) == total_weight(weights),
    decreases j - i,
{
    assert(weights.take(weights.len() as int) =~= weights);
    if i < j {
        lemma_cumulative_step(weights, j - 1);
        lemma_cumulative_monotone(weights, i, j - 1);
    }
}

/// A draw selects at most one entry.
pub proof fn lemma_selection_unique(weights: Seq<NamedWeight>, draw: int, i: int, k: int)
    requires
        selects(weights, draw, i),
        selects(weights, draw, k),
    ensures
        i == k,
{
}

/// The draws that select an entry are those from the cumulative sum before it
/// up to, but not including, the cumulative sum with it: as many draws as the
/// entry's weight.
pub proof fn lemma_selection_share(weights: Seq<NamedWeight>, draw: int, i: int)
    requires
        non_negative(weights),
        0 <= draw,
        0 <= i < weights.len(),
    ensures
        selects(weights, draw, i) <==> cumulative(weights, i) <= draw < cumulative(weights, i)
            + weights[i].weight,
{
    lemma_cumulative_step(weights, i);
    if cumulative(weights, i) <= draw < cumulative(weights, i + 1) {
        assert forall|j: int| 0 < j <= i implies #[trigger] cumulative(weights, j) <= draw by {
            lemma_cumulative_monotone(weights, j, i);
        }
    }
}

/// The entry that `draw` selects: the first whose cumulative sum exceeds it.
/// No entry is selected when the draw is not below the total weight.
pub fn select(weights: &Vec<OptionWeight>, draw: u64) -> (r: Option<usize>)
    ensures
        r is Some <==> draw < total_weight(weights_of(weights@)),
        r matches Some(i) ==> selects(weights_of(weights@), draw as int, i as int),
{
    let ghost all = weights_of(weights@);
    let n = weights.len();
    let mut sum: u128 = 0;
    let mut i: usize = 0;
    proof {
        lemma_cumulative_monotone(all, 0, 0);
    }
    while i < n
        invariant
            n == weights.len(),
            i <= n,
            all == weights_of(weights@),
            non_negative(all),
            sum == cumulative(all, i as int),
            sum <= i * 0xffff_ffff_ffff_ffff,
            sum <= draw,
            forall|j: int| 0 < j <= i ==> #[trigger] cumulative(all, j) <= draw,
        decreases n - i,
    {
        proof {
            lemma_cumulative_step(all, i as int);
            lemma_cumulative_monotone(all, i + 1, n as int);
        }
        sum = sum + weights[i].weight as u128;
        if sum > draw as u128 {
            return Some(i);
        }
        i = i + 1;
    }
    None
}

/// The sum of all the weights.
pub fn total(weights: &Vec<OptionWeight>) -> (sum: u128)
    ensures
        sum == total_weight(weights_of(weights@)),
{
    let ghost all = weights_of(weights@);
    let n = weights.len();
    let mut sum: u128 = 0;
    let mut i: usize = 0;
    while i < n
        invariant
            n == weights.len(),
            i <= n,
            all == weights_of(weights@),
            sum == cumulative(all, i as int),
            sum <= i * 0xffff_ffff_ffff_ffff,
        decreases n - i,
    {
        proof {
            lemma_cumulative_step(all, i as int);
        }
        sum = sum + weights[i].weight as u128;
        i = i + 1;
    }
    proof {
        assert(all.take(n as int) =~= all);
    }
    sum
}

/// Some draw below the total weight selects an entry of the name `name`.
pub open spec fn is_choice(weights: Seq<NamedWeight>, name: Seq<char>) -> bool {
    exists|draw: int, i: int|
        0 <= draw < total_weight(weights) && #[trigger] selects(weights, draw, i)
            && weights[i].name == name
}

/// `r` is what a weighted choice among `weights` may return: the name of an
/// entry that some draw selects; `EmptySelection` where the total weight is 0;
/// `Query` where the total weight is more than a draw can cover.
pub open spec fn is_outcome_of_choice(weights: Seq<NamedWeight>, r: Result<String, Error>) -> bool {
    match r {
        Ok(name) => 0 < total_weight(weights) <= u64::MAX && is_choice(weights, name@),
        Err(e) => if total_weight(weights) == 0 {
            e == Error::EmptySelection
        } else {
            e == Error::Query && total_weight(weights) > u64::MAX
        },
    }
}

/// A number below `bound`, drawn uniformly from the thread's random number
/// generator.
///
/// The body samples `rand::distributions::Range::new(0, bound)` once, through
/// `IndependentSample::ind_sample`, with `rand::thread_rng()`. Nothing of this
/// is proved. `Range::new` refuses an interval that is empty, hence the
/// `requires`. Of the outcome the contract claims only that it lies in the
/// interval: the range returns the lower bound plus a remainder modulo the
/// interval's length. That the draws are uniform is the generator's promise
/// and no part of the contract. The generator gives up where the system has
/// no entropy for it.
#[verifier::external_body]
fn draw_below(bound: u64) -> (draw: u64)
    requires
        bound > 0,
    ensures
        draw < bound,
{
    Range::new(0u64, bound).ind_sample(&mut rand::thread_rng())
}

/// Draws one entry with probability proportional to its weight and returns its name.
///
/// It fails with `EmptySelection` when no entry has a positive weight, and with
/// `Query` when the total weight is more than a draw can cover.
pub fn choose_weighted(weights: &Vec<OptionWeight>) -> (r: Result<String, Error>)
    ensures
        is_outcome_of_choice(weights_of(weights@), r),
{
    let sum = total(weights);
    if sum == 0 {
        return Err(Error::EmptySelection);
    }
    if sum > u64::MAX as u128 {
        return Err(Error::Query);
    }
    let draw = draw_below(sum as u64);
    match select(weights, draw) {
        Some(i) => {
            let name = weights[i].name.clone();
            Ok(name)
        },
        // A draw below the total always selects an entry.
        None => Err(Error::EmptySelection),
    }
}

} // verus!
