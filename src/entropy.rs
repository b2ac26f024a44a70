use vstd::prelude::*;

verus! {

/// The pseudorandom stream that every random decision of the engine draws
/// from: ChaCha with 8 rounds, whose output for a seed is fixed by the
/// algorithm, so a seeded run repeats exactly.
pub type Entropy = rand_chacha::ChaCha8Rng;

#[verifier::external_type_specification]
#[verifier::external_body]
pub struct ExChaCha8Rng(rand_chacha::ChaCha8Rng);

/// Relies on `rand::Rng::gen::<bool>`: a fair coin drawn from the stream.
#[verifier::external_body]
pub(crate) fn coin_flip(rng: &mut Entropy) -> (r: bool) {
    rand::Rng::gen::<bool>(rng)
}

#[verifier::external_type_specification]
#[verifier::external_body]
pub struct ExWeightedError(rand::distributions::WeightedError);

/// The sum of the weights (first components) of a sequence of weighted items.
pub open spec fn weight_sum(items: Seq<(u128, usize)>) -> nat
    decreases items.len(),
{
    if items.len() == 0 {
        0
    } else {
        weight_sum(items.drop_last()) + items.last().0 as nat
    }
}

/// Relies on `rand::seq::SliceRandom::choose_weighted`: `WeightedIndex::new`
/// fails with `NoItem` on an empty slice and with `AllWeightsZero` when the
/// weights sum to zero (no `u128` weight is negative); otherwise the sample
/// lands in the cumulative interval of one item, which therefore has a positive
/// weight. The running total is a `u128` that must not overflow.
#[verifier::external_body]
pub(crate) fn choose_weighted(rng: &mut Entropy, items: &[(u128, usize)]) -> (r: Result<
    (u128, usize),
    rand::distributions::WeightedError,
>)
    requires
        weight_sum(items@) <= u128::MAX,
    ensures
        r is Ok <==> (items@.len() > 0 && weight_sum(items@) > 0),
        r matches Ok(p) ==> items@.contains(p) && p.0 > 0,
{
    rand::seq::SliceRandom::choose_weighted(items, rng, |p| p.0).copied()
}

} // verus!
