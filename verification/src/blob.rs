//! Agents ("blobs") and their state.
//!
//! A blob is a 1x1 creature on a 128x128 board. Its position is held in
//! 1/64-units measured from the center of the board, so each component lies
//! in [-POS_MAX, POS_MAX] and stands for a fraction in [-1, 1]. Internal
//! neuron state is held in fixed-point `SCALE` units; it starts within
//! [-1, 1] but may grow without bound as the simulation runs.

use vstd::prelude::*;
use crate::fixed::SCALE;
use crate::genome::{Genomes, genomes_wf, random_genomes};
use crate::rng::draw_i64;

verus! {

/// Largest position magnitude, in 1/64-units: 64 stands for 1.0.
pub const POS_MAX: i64 = 64;

/// The four internal neurons' state, in fixed-point `SCALE` units.
#[derive(Debug, Copy, Clone, PartialEq, Eq, Structural)]
pub struct InternalState {
    pub i0: i64,
    pub i1: i64,
    pub i2: i64,
    pub i3: i64,
}

/// One agent: a position on the board, four internal neurons, and a fixed
/// set of eight genomes.
#[derive(Debug, Copy, Clone)]
pub struct Blob {
    /// Position in 1/64-units from the center of the x axis.
    pub x: i64,
    /// Position in 1/64-units from the center of the y axis.
    pub y: i64,
    pub genomes: Genomes,
    pub internal_state: InternalState,
}

impl InternalState {
    /// Every internal neuron's magnitude is at most `n`.
    pub open spec fn bounded(self, n: int) -> bool {
        &&& -n <= self.i0 as int <= n
        &&& -n <= self.i1 as int <= n
        &&& -n <= self.i2 as int <= n
        &&& -n <= self.i3 as int <= n
    }

    /// Draw a fresh internal state: `i0` uniform in [0, 1], the rest uniform
    /// in [-1, 1] (fixed point).
    pub fn random_new(rng: &mut rand::rngs::StdRng) -> (st: Self)
        ensures
            st.bounded(SCALE as int),
            st.i0 >= 0,
    {
        Self {
            i0: draw_i64(rng, 0, SCALE),
            i1: draw_i64(rng, -SCALE, SCALE),
            i2: draw_i64(rng, -SCALE, SCALE),
            i3: draw_i64(rng, -SCALE, SCALE),
        }
    }
}

impl Blob {
    /// Both position components lie on the board and every genome weight is
    /// in range.
    pub open spec fn wf(self) -> bool {
        &&& -POS_MAX <= self.x as int <= POS_MAX
        &&& -POS_MAX <= self.y as int <= POS_MAX
        &&& genomes_wf(self.genomes)
    }

    /// Create a randomly generated new blob: uniform position, uniform
    /// genomes, fresh internal state. Only used in the initial generation.
    pub fn random_new(rng: &mut rand::rngs::StdRng) -> (b: Self)
        ensures
            b.wf(),
            b.internal_state.bounded(SCALE as int),
            b.internal_state.i0 >= 0,
    {
        Self {
            x: draw_i64(rng, -POS_MAX, POS_MAX),
            y: draw_i64(rng, -POS_MAX, POS_MAX),
            genomes: random_genomes(rng),
            internal_state: InternalState::random_new(rng),
        }
    }

    /// Create a blob in a random position with an inherited genome set.
    /// Used in all later generations: genetics carries over, position and
    /// internal state are freshly randomized.
    pub fn random_pos(genomes: Genomes, rng: &mut rand::rngs::StdRng) -> (b: Self)
        requires
            genomes_wf(genomes),
        ensures
            b.wf(),
            b.internal_state.bounded(SCALE as int),
            b.internal_state.i0 >= 0,
            b.genomes == genomes,
    {
        Self {
            x: draw_i64(rng, -POS_MAX, POS_MAX),
            y: draw_i64(rng, -POS_MAX, POS_MAX),
            genomes,
            internal_state: InternalState::random_new(rng),
        }
    }
}

} // verus!
