//! The random draws of the game world and of the search policy, made by the
//! `rand` crate. Nothing here is proved: each contract states what the
//! crate's documentation and source give for every outcome.

use rand::rngs::SmallRng;
use rand::seq::SliceRandom;
use rand::FromEntropy;
use rand::Rng;
use rand::SeedableRng;
use vstd::prelude::*;

verus! {

/// The generator of the game world's draws. Its state is never read here.
#[verifier::external_type_specification]
#[verifier::external_body]
pub struct ExSmallRng(rand::rngs::SmallRng);

/// The generator of the search policy's draws. Its state is never read here.
#[verifier::external_type_specification]
#[verifier::external_body]
pub struct ExXorShiftRng(rand::prng::XorShiftRng);

/// The sum of a sequence of weights.
pub open spec fn weight_sum(weights: Seq<u32>) -> int
    decreases weights.len(),
{
    if weights.len() == 0 {
        0
    } else {
        weight_sum(weights.drop_last()) + weights.last()
    }
}

/// `SmallRng::from_entropy`: a generator seeded by the operating system.
/// Nothing is claimed of it.
#[verifier::external_body]
pub(crate) fn entropy_rng() -> (rng: SmallRng) {
    SmallRng::from_entropy()
}

/// `rand::seq::index::sample`, its result turned into a vector: `amount`
/// indices below `length`, no two of them equal, in no stated order. The
/// crate panics where `amount` exceeds `length`.
#[verifier::external_body]
pub(crate) fn sample_indices(rng: &mut SmallRng, length: usize, amount: usize) -> (indices: Vec<
    usize,
>)
    requires
        amount <= length,
    ensures
        indices@.len() == amount,
        indices@.no_duplicates(),
        forall|i: int| 0 <= i < indices@.len() ==> #[trigger] indices@[i] < length,
{
    rand::seq::index::sample(rng, length, amount).into_vec()
}

/// `SliceRandom::choose_weighted` on the positions of `weights`, each
/// weighted by its entry. The crate adds the weights up in `u32`, so their
/// sum has to fit. It fails only on an empty list or a sum of zero, and the
/// position it picks has a weight above zero.
#[verifier::external_body]
pub(crate) fn weighted_pick(rng: &mut SmallRng, weights: &Vec<u32>) -> (pick: Option<usize>)
    requires
        weight_sum(weights@) <= u32::MAX,
    ensures
        weights@.len() > 0 && weight_sum(weights@) > 0 ==> pick is Some,
        pick matches Some(i) ==> i < weights@.len() && weights@[i as int] > 0,
{
    let positions: Vec<usize> = (0..weights.len()).collect();
    match positions.choose_weighted(rng, |position| weights[*position]) {
        Ok(position) => Some(*position),
        Err(_) => None,
    }
}

/// `SeedableRng::from_seed` for the xorshift generator. Nothing is claimed
/// of the generator it returns.
#[verifier::external_body]
pub(crate) fn seeded_rng(seed: [u8; 16]) -> (rng: rand::prng::XorShiftRng) {
    rand::prng::XorShiftRng::from_seed(seed)
}

/// `Clone::clone` of the xorshift generator. Nothing is claimed of the copy.
pub assume_specification[ <rand::prng::XorShiftRng as Clone>::clone ](
    rng: &rand::prng::XorShiftRng,
) -> (copy: rand::prng::XorShiftRng)
;

/// `Rng::gen_ratio`: true with probability `numerator / denominator`, and
/// always true where the two are equal. The crate panics on a denominator of
/// zero and on a numerator above the denominator.
#[verifier::external_body]
pub(crate) fn ratio_draw(rng: &mut rand::prng::XorShiftRng, numerator: u32, denominator: u32) -> (hit:
    bool)
    requires
        0 < denominator,
        numerator <= denominator,
    ensures
        numerator == denominator ==> hit,
{
    rng.gen_ratio(numerator, denominator)
}

} // verus!
