//! The random source: a seedable generator of the `rand` crate, and the one
//! draw that the library makes from it.

use rand::rngs::StdRng;
use rand::Rng;
use rand::SeedableRng;
use vstd::prelude::*;

verus! {

#[verifier::external_type_specification]
#[verifier::external_body]
pub struct ExStdRng(StdRng);

/// Relies on `rand::SeedableRng::from_rng` applied to `rand::rng()`: a fresh
/// generator seeded from the thread-local source; nothing is promised of it.
#[verifier::external_body]
pub(crate) fn entropy_rng() -> StdRng {
    StdRng::from_rng(&mut rand::rng())
}

/// Relies on `rand::Rng::random_range` over `0..bound`: the value lies in the
/// range, and the range must not be empty (it panics on an empty one).
#[verifier::external_body]
pub(crate) fn draw_below(rng: &mut StdRng, bound: u128) -> (r: u128)
    requires
        bound > 0,
    ensures
        r < bound,
{
    rng.random_range(0..bound)
}

} // verus!
