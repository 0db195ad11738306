use vstd::prelude::*;

use rand::rngs::StdRng;
use rand::seq::SliceRandom;
use rand::Rng;
use rand::SeedableRng;

verus! {

#[verifier::external_type_specification]
#[verifier::external_body]
pub struct ExStdRng(rand::rngs::StdRng);

/// Relies on the derived `Clone` of rand's `StdRng`: the copy continues the same stream.
pub assume_specification[ <rand::rngs::StdRng as core::clone::Clone>::clone ](rng: &rand::rngs::StdRng) -> (r: rand::rngs::StdRng)
    ensures
        r == *rng,
;

/// Relies on rand's `SeedableRng::seed_from_u64`: a generator whose stream is fixed by the seed.
#[verifier::external_body]
pub(crate) fn seeded_rng(seed: u64) -> StdRng {
    StdRng::seed_from_u64(seed)
}

/// Relies on rand's `Rng::gen_range` over `0..n`, which panics only on an empty range.
#[verifier::external_body]
pub(crate) fn random_below(rng: &mut StdRng, n: usize) -> (r: usize)
    requires
        n > 0,
    ensures
        r < n,
{
    rng.gen_range(0..n)
}

/// Relies on rand's `SliceRandom::shuffle`, which only swaps elements.
#[verifier::external_body]
pub(crate) fn shuffle_in_place<T>(cards: &mut Vec<T>, rng: &mut StdRng)
    ensures
        final(cards)@.len() == old(cards)@.len(),
        final(cards)@.to_multiset() == old(cards)@.to_multiset(),
{
    cards.shuffle(rng)
}

} // verus!
