//! Fixed-point scalars and the squashing curve.
//!
//! A signal value `v` stands for the real number `v / SCALE`; `SCALE` itself
//! stands for 1.0. Accumulated signals are squashed back into [-1, 1] by an
//! odd, saturating, piecewise-linear curve before they are applied.

use vstd::prelude::*;

verus! {

/// Fixed-point representation of 1.0.
pub const SCALE: i64 = 1024;

/// Largest accumulator magnitude the squashing curve accepts. Wide enough
/// for 8 genomes of weight 10 applied to internal state that has grown by
/// at most 1.0 per step for `STEPS_MAX` steps.
pub const ACC_LIMIT: i64 = 90_000_000_000_000;

/// The squashing curve on non-negative inputs: identity near zero, then two
/// ever-flatter linear pieces, saturating at 1.0 (`SCALE`).
pub open spec fn squash_pos(a: int) -> int
    recommends
        a >= 0,
{
    if a <= 512 {
        a
    } else if a <= 2048 {
        384 + a / 4
    } else if a <= 4096 {
        896 + (a - 2048) / 16
    } else {
        1024
    }
}

/// The squashing curve: odd extension of `squash_pos`.
pub open spec fn spec_squash(a: int) -> int {
    if a < 0 {
        -squash_pos(-a)
    } else {
        squash_pos(a)
    }
}

/// The curve stays within [-1.0, 1.0], fixes zero, and keeps the sign of
/// its input.
pub proof fn lemma_squash_bounds(a: int)
    ensures
        -SCALE <= spec_squash(a) <= SCALE,
        a == 0 ==> spec_squash(a) == 0,
        a > 0 ==> spec_squash(a) > 0,
        a < 0 ==> spec_squash(a) < 0,
{
}

fn squash_nonneg(a: i64) -> (t: i64)
    requires
        0 <= a <= ACC_LIMIT,
    ensures
        t == squash_pos(a as int),
{
    if a <= 512 {
        a
    } else if a <= 2048 {
        384 + a / 4
    } else if a <= 4096 {
        896 + (a - 2048) / 16
    } else {
        1024
    }
}

/// Squash an accumulated signal into [-1.0, 1.0] (fixed point).
pub fn squash(a: i64) -> (t: i64)
    requires
        -ACC_LIMIT <= a <= ACC_LIMIT,
    ensures
        t == spec_squash(a as int),
        -SCALE <= t <= SCALE,
{
    proof {
        lemma_squash_bounds(a as int);
    }
    if a >= 0 {
        squash_nonneg(a)
    } else {
        let p = squash_nonneg(-a);
        -p
    }
}

} // verus!
