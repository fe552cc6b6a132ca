//! The seedable random source of the spawner.
//!
//! The generator itself comes from the `rand` crate; the library asks it only
//! for bounded values and owns every decision made with them, so tests can
//! reproduce exact spawn sequences from a seed.

use rand::rngs::StdRng;
use rand::RngExt;
use rand::SeedableRng;
use vstd::prelude::*;

verus! {

#[verifier::external_type_specification]
#[verifier::external_body]
pub struct ExStdRng(StdRng);

/// Relies on rand's `StdRng::seed_from_u64` (via `SeedableRng`): builds a
/// deterministic generator from a 64-bit seed.
#[verifier::external_body]
pub fn rng_from_seed(seed: u64) -> (r: StdRng) {
    StdRng::seed_from_u64(seed)
}

/// Relies on rand's `RngExt::random_range` over `0..n`, which returns a value
/// of the non-empty range.
#[verifier::external_body]
pub fn rng_below(rng: &mut StdRng, n: u32) -> (r: u32)
    requires
        n >= 1,
    ensures
        r < n,
{
    rng.random_range(0..n)
}

} // verus!
