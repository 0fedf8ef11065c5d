//! Genomes: one weighted edge from a source to a sink.

use vstd::prelude::*;
use crate::neurons::{Source, Sink};
use crate::rng::draw_i64;

verus! {

/// Number of genomes in every agent's genome set.
pub const GENOME_COUNT: usize = 8;

/// Largest magnitude of a genome's weight.
pub const WEIGHT_MAX: i64 = 10;

/// One weighted neural pathway: the source's signal, multiplied by the
/// weight, accumulates into the sink.
#[derive(Debug, Copy, Clone, PartialEq, Eq, Structural)]
pub struct Genome {
    pub source: Source,
    pub sink: Sink,
    pub weight: i8,
}

/// An agent's genetic makeup: exactly eight genomes.
pub type Genomes = [Genome; 8];

impl Genome {
    /// A genome's weight always lies in [-WEIGHT_MAX, WEIGHT_MAX].
    pub open spec fn wf(self) -> bool {
        -WEIGHT_MAX <= self.weight as int <= WEIGHT_MAX
    }

    /// Draw a genome uniformly: source and sink uniform over their sets,
    /// weight uniform over [-WEIGHT_MAX, WEIGHT_MAX].
    pub fn random_new(rng: &mut rand::rngs::StdRng) -> (g: Self)
        ensures
            g.wf(),
    {
        let w = draw_i64(rng, -WEIGHT_MAX, WEIGHT_MAX);
        Self { source: Source::random_new(rng), sink: Sink::random_new(rng), weight: w as i8 }
    }
}

/// Every genome of the set has a well-formed weight.
pub open spec fn genomes_wf(gs: Genomes) -> bool {
    forall|i: int| 0 <= i < gs@.len() ==> (#[trigger] gs@[i]).wf()
}

/// Draw a full genome set of independently random genomes.
pub fn random_genomes(rng: &mut rand::rngs::StdRng) -> (gs: Genomes)
    ensures
        genomes_wf(gs),
{
    let gs: Genomes = [
        Genome::random_new(rng),
        Genome::random_new(rng),
        Genome::random_new(rng),
        Genome::random_new(rng),
        Genome::random_new(rng),
        Genome::random_new(rng),
        Genome::random_new(rng),
        Genome::random_new(rng),
    ];
    gs
}

} // verus!
