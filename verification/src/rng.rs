//! Random draws. Everything here is believed, not proved: each function
//! hands a call to the `rand` crate and states what holds of every outcome.

use rand::distributions::Distribution;
use rand::Rng;
use vstd::prelude::*;

verus! {

/// The generator of `rand` that the engine draws from.
#[verifier::external_type_specification]
#[verifier::external_body]
pub struct ExStdRng(rand::rngs::StdRng);

/// The error of `rand::distributions::WeightedIndex::new`.
#[verifier::external_type_specification]
#[verifier::external_body]
pub struct ExWeightedError(rand::distributions::WeightedError);

/// A `rand::distributions::WeightedIndex<u32>`: a list of weights from which
/// indices are drawn, each with a chance proportional to its weight.
#[verifier::external_body]
pub struct WeightedChoice {
    inner: rand::distributions::WeightedIndex<u32>,
}

/// The weights that a `WeightedChoice` was made from, in order.
pub uninterp spec fn choice_weights(choice: WeightedChoice) -> Seq<u32>;

/// The sum of `weights`.
pub open spec fn total_weight(weights: Seq<u32>) -> int
    decreases weights.len(),
{
    if weights.len() == 0 {
        0
    } else {
        total_weight(weights.drop_last()) + weights.last()
    }
}

/// `Rng::gen_range` on `i32`: some value from `low` up to, but not
/// including, `high`. The call panics unless `low < high`.
#[verifier::external_body]
pub(crate) fn random_i32(rng: &mut rand::rngs::StdRng, low: i32, high: i32) -> (r: i32)
    requires
        low < high,
    ensures
        low <= r < high,
{
    rng.gen_range(low, high)
}

/// `Rng::gen_range` on `u32`: some value from `low` up to, but not
/// including, `high`. The call panics unless `low < high`.
#[verifier::external_body]
pub(crate) fn random_u32(rng: &mut rand::rngs::StdRng, low: u32, high: u32) -> (r: u32)
    requires
        low < high,
    ensures
        low <= r < high,
{
    rng.gen_range(low, high)
}

/// `Rng::gen` on `bool`: a coin flip, of which nothing is promised.
#[verifier::external_body]
pub(crate) fn random_bool(rng: &mut rand::rngs::StdRng) -> (r: bool) {
    rng.gen()
}

/// `WeightedIndex::new` on `u32` weights. It adds the weights up in `u32`,
/// so their sum has to fit. It fails exactly when the sum is zero, which
/// includes the empty list; otherwise the result holds the weights given.
#[verifier::external_body]
pub(crate) fn weighted_choice(weights: &Vec<u32>) -> (r: Result<
    WeightedChoice,
    rand::distributions::WeightedError,
>)
    requires
        total_weight(weights@) <= u32::MAX,
    ensures
        r is Ok <==> total_weight(weights@) > 0,
        r is Ok ==> choice_weights(r->Ok_0) == weights@,
{
    match rand::distributions::WeightedIndex::new(weights.iter()) {
        Ok(inner) => Ok(WeightedChoice { inner }),
        Err(e) => Err(e),
    }
}

/// `WeightedIndex::sample`: the index of one of the weights, and never of a
/// weight that is zero.
#[verifier::external_body]
pub(crate) fn weighted_sample(choice: &WeightedChoice, rng: &mut rand::rngs::StdRng) -> (r: usize)
    ensures
        r < choice_weights(*choice).len(),
        choice_weights(*choice)[r as int] > 0,
{
    choice.inner.sample(rng)
}

} // verus!
