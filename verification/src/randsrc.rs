//! The injected randomness source.
//!
//! The simulation itself is deterministic; its two random inputs — the
//! per-tick heading jitter and the initial headings — come from a seedable
//! generator injected by the caller. The generator and the two calls into
//! it are the trusted boundary around the `rand` crate.

use vstd::prelude::*;

verus! {

use rand::RngExt;
use rand::SeedableRng;

#[verifier::external_type_specification]
#[verifier::external_body]
pub struct ExStdRng(rand::rngs::StdRng);

/// Relies on rand_core::SeedableRng::seed_from_u64 (as implemented by
/// rand::rngs::StdRng): builds a generator from a 64-bit seed.
#[verifier::external_body]
pub(crate) fn rng_from_seed(seed: u64) -> (rng: rand::rngs::StdRng) {
    rand::rngs::StdRng::seed_from_u64(seed)
}

/// Relies on rand::RngExt::random_range over an `i64` range: the sample
/// lies in the half-open range `lo..hi`, which must be non-empty.
#[verifier::external_body]
pub(crate) fn draw_in_range(rng: &mut rand::rngs::StdRng, lo: i64, hi: i64) -> (r: i64)
    requires
        lo < hi,
    ensures
        lo <= r < hi,
{
    rng.random_range(lo..hi)
}

} // verus!
