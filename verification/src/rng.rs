//! Entropy-seeded shuffling. The random serializer draws its permutations
//! from here; nothing is assumed of the drawn order beyond being a
//! permutation.

use vstd::prelude::*;

use rand::SeedableRng;
use rand::rngs::SmallRng;
use rand::seq::SliceRandom;

use crate::pixel::Pixel;

verus! {

/// rand's small fast PRNG. Its state is opaque to the verifier; values of
/// it are only threaded through the shuffling calls.
#[verifier::external_type_specification]
#[verifier::external_body]
pub struct ExSmallRng(SmallRng);

/// Relies on `SmallRng::from_entropy`: a fresh generator seeded from the
/// operating system's entropy source. Nothing is assumed about the values
/// it will produce. It panics only if the operating system's entropy
/// source fails, which no input can avoid.
#[verifier::external_body]
pub(crate) fn fresh_rng() -> SmallRng {
    SmallRng::from_entropy()
}

/// Relies on `SliceRandom::shuffle`: an in-place Fisher-Yates shuffle. It
/// only swaps elements of the slice, so the result holds the same items,
/// as a multiset, in an order drawn from the generator; nothing is assumed
/// about which order comes out.
#[verifier::external_body]
pub(crate) fn shuffle_pixels(items: &mut Vec<Pixel>, rng: &mut SmallRng)
    ensures
        final(items)@.len() == old(items)@.len(),
        final(items)@.to_multiset() == old(items)@.to_multiset(),
{
    items.shuffle(rng)
}

} // verus!
