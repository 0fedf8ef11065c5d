//! Random draws, through a seedable generator.
//!
//! Every run of the simulation owns one `rand::rngs::StdRng`, built from a
//! seed supplied by the caller, so there is no hidden process-wide state and
//! a run is reproducible given its seed. Nothing more than the range of each
//! draw is assumed of the generator.

use vstd::prelude::*;

verus! {

#[verifier::external_type_specification]
#[verifier::external_body]
pub struct ExStdRng(rand::rngs::StdRng);

/// Relies on rand's `SeedableRng::seed_from_u64`: builds a generator from a
/// seed; always returns, for every seed.
#[verifier::external_body]
pub fn rng_from_seed(seed: u64) -> rand::rngs::StdRng {
    <rand::rngs::StdRng as rand::SeedableRng>::seed_from_u64(seed)
}

/// Relies on rand's `Rng::random_range` over `lo..=hi`: returns a value of
/// the (non-empty) inclusive range; panics only on an empty range, which the
/// precondition rules out.
#[verifier::external_body]
pub fn draw_i64(rng: &mut rand::rngs::StdRng, lo: i64, hi: i64) -> (r: i64)
    requires
        lo <= hi,
    ensures
        lo <= r <= hi,
{
    rand::Rng::random_range(rng, lo..=hi)
}

/// Relies on rand's `Rng::random_range` over `0..n`: returns a value below
/// `n`; panics only on an empty range, which the precondition rules out.
#[verifier::external_body]
pub fn draw_index(rng: &mut rand::rngs::StdRng, n: usize) -> (r: usize)
    requires
        n > 0,
    ensures
        r < n,
{
    rand::Rng::random_range(rng, 0..n)
}

} // verus!
