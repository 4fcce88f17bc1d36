//! Trusted boundary to the `rand` crate: the game threads an explicit,
//! seedable generator through its state, so runs are deterministic and
//! replayable.

use vstd::prelude::*;

verus! {

#[verifier::external_type_specification]
#[verifier::external_body]
pub struct ExStdRng(rand::rngs::StdRng);

/// Relies on `rand::SeedableRng::seed_from_u64` for `StdRng`: builds a
/// generator from a seed. Nothing is assumed of the values it will produce.
#[verifier::external_body]
pub(crate) fn rng_from_seed(seed: u64) -> rand::rngs::StdRng {
    <rand::rngs::StdRng as rand::SeedableRng>::seed_from_u64(seed)
}

/// Relies on `rand::Rng::gen_range` on a half-open `u64` range: the sample
/// lies within the range. The call panics only on an empty range, which the
/// precondition rules out; which value comes back is not assumed.
#[verifier::external_body]
pub(crate) fn rng_range(rng: &mut rand::rngs::StdRng, lo: u64, hi: u64) -> (r: u64)
    requires
        lo < hi,
    ensures
        lo <= r < hi,
{
    rand::Rng::gen_range(rng, lo..hi)
}

} // verus!
