//! The simulation engine: a population of blobs advanced step by step,
//! selected by position at each generation's end, and repopulated from the
//! survivors' genomes.
//!
//! The engine drives an explicit generational cycle: run `steps_per_gen`
//! steps, select the survivors (non-negative x), repopulate `population_cap`
//! fresh agents by sampling survivor genome sets with replacement, and
//! repeat for `gens` generations. A generation with no survivors is a
//! terminal failure: there is nothing to repopulate from.

use vstd::prelude::*;
use crate::blob::Blob;
use crate::fixed::SCALE;
use crate::rng::{rng_from_seed, draw_i64, draw_index};
use crate::step::{
    apply_step, spec_step_x, spec_step_y, spec_step_i0, spec_step_i1, spec_step_i2, spec_step_i3,
    INTERNAL_LIMIT,
};

verus! {

/// Most steps a single generation may be configured to run. Internal state
/// grows by at most 1.0 per step, so this cap keeps every accumulator
/// within the range the squashing curve accepts.
pub const STEPS_MAX: usize = 1_000_000_000;

/// A generation ended with no survivors: the simulation cannot repopulate
/// and must stop.
#[derive(Debug, PartialEq, Eq, Structural)]
pub struct Extinction;

/// The survival predicate: an agent survives selection when its x position
/// is non-negative.
pub open spec fn spec_survives(b: Blob) -> bool {
    b.x >= 0
}

/// The survivors of a population, in population order.
pub open spec fn spec_survivors(blobs: Seq<Blob>) -> Seq<Blob> {
    blobs.filter(|b: Blob| spec_survives(b))
}

/// Selection keeps only agents of the population, so every survivor of a
/// well-formed population is well-formed.
proof fn lemma_survivors_ok(blobs: Seq<Blob>, bound: int)
    requires
        Simulator::blobs_ok(blobs, bound),
    ensures
        forall|i: int|
            0 <= i < spec_survivors(blobs).len() ==> (#[trigger] spec_survivors(blobs)[i]).wf(),
    decreases blobs.len(),
{
    reveal(Seq::filter);
    if blobs.len() > 0 {
        let rest = blobs.drop_last();
        assert forall|j: int| 0 <= j < rest.len() implies (#[trigger] rest[j]).wf()
            && rest[j].internal_state.bounded(bound) && rest[j].internal_state.i0 >= 0 by {
            assert(rest[j] == blobs[j]);
        }
        lemma_survivors_ok(rest, bound);
        let f = spec_survivors(rest);
        let last = blobs.last();
        assert(last == blobs[blobs.len() - 1]);
        assert forall|i: int|
            0 <= i < spec_survivors(blobs).len() implies (#[trigger] spec_survivors(blobs)[i]).wf() by {
            if last.x >= 0 {
                assert(spec_survivors(blobs) == f.push(last));
                if i < f.len() {
                    assert(spec_survivors(blobs)[i] == f[i]);
                } else {
                    assert(spec_survivors(blobs)[i] == last);
                }
            } else {
                assert(spec_survivors(blobs) == f);
            }
        }
    }
}

/// The new agent's genome set is element-identical to some parent's.
pub open spec fn inherits_from(nb: Blob, parents: Seq<Blob>) -> bool {
    exists|k: int| 0 <= k < parents.len() && nb.genomes == (#[trigger] parents[k]).genomes
}

/// One agent was stepped: for some admissible random signal and threshold
/// draws, its new state is exactly the stepped state of its old one.
pub open spec fn blob_stepped(pre: Blob, post: Blob) -> bool {
    exists|r: int, ux: int, uy: int|
        {
            &&& -SCALE <= r <= SCALE
            &&& 0 <= ux < SCALE
            &&& 0 <= uy < SCALE
            &&& post.x as int == #[trigger] spec_step_x(pre, r, ux)
            &&& post.y as int == #[trigger] spec_step_y(pre, r, uy)
            &&& post.internal_state.i0 as int == spec_step_i0(pre, r)
            &&& post.internal_state.i1 as int == spec_step_i1(pre, r)
            &&& post.internal_state.i2 as int == spec_step_i2(pre, r)
            &&& post.internal_state.i3 as int == spec_step_i3(pre, r)
            &&& post.genomes == pre.genomes
        }
}

/// Every agent of the population was stepped exactly once, slot by slot.
pub open spec fn popn_stepped_once(pre: Seq<Blob>, post: Seq<Blob>) -> bool {
    &&& post.len() == pre.len()
    &&& forall|j: int| 0 <= j < pre.len() ==> blob_stepped(pre[j], #[trigger] post[j])
}

/// A chain of intermediate populations that links `pre` to `post` by
/// single whole-population steps: the chain starts at `pre`, each entry is
/// the previous one stepped once, and after `n` steps it ends at `post`.
pub open spec fn step_trace_ok(trace: Seq<Seq<Blob>>, pre: Seq<Blob>, post: Seq<Blob>, n: nat) -> bool {
    &&& trace.len() == n + 1
    &&& trace[0] == pre
    &&& trace[n as int] == post
    &&& forall|i: int| 0 <= i < n ==> popn_stepped_once(#[trigger] trace[i], trace[i + 1])
}

/// The population `post` is the image of `pre` under exactly `n` whole
/// per-step updates.
pub open spec fn popn_stepped(pre: Seq<Blob>, post: Seq<Blob>, n: nat) -> bool {
    exists|trace: Seq<Seq<Blob>>| #[trigger] step_trace_ok(trace, pre, post, n)
}

/// One whole generational cycle from population `pre` to population `post`:
/// `pre` is stepped `steps` times to an end state, `count` (nonzero) is that
/// end state's survivor count, and `post` holds exactly `cap` agents, each
/// inheriting some survivor's genome set.
pub open spec fn generation_cycle(
    pre: Seq<Blob>,
    post: Seq<Blob>,
    steps: nat,
    count: nat,
    cap: nat,
) -> bool {
    exists|endp: Seq<Blob>|
        {
            &&& #[trigger] popn_stepped(pre, endp, steps)
            &&& count == spec_survivors(endp).len()
            &&& count > 0
            &&& post.len() == cap
            &&& forall|j: int| 0 <= j < post.len() ==> inherits_from(#[trigger] post[j], spec_survivors(endp))
        }
}

/// A chain of populations and survivor counts that links `pre` to `post`
/// by whole generational cycles: the chain starts at `pre`, each entry is
/// one full cycle of the previous (with `counts` recording each cycle's
/// survivor count), and after `g` cycles it ends at `post`.
pub open spec fn generation_trace_ok(
    pops: Seq<Seq<Blob>>,
    counts: Seq<nat>,
    pre: Seq<Blob>,
    post: Seq<Blob>,
    g: nat,
    steps: nat,
    cap: nat,
) -> bool {
    &&& pops.len() == g + 1
    &&& counts.len() == g
    &&& pops[0] == pre
    &&& pops[g as int] == post
    &&& forall|i: int|
        0 <= i < g ==> generation_cycle(#[trigger] pops[i], pops[i + 1], steps, counts[i], cap)
}

/// `g` whole generational cycles link `pre` to `post`; for `g > 0`, `count`
/// is the last cycle's survivor count.
pub open spec fn generations_run(
    pre: Seq<Blob>,
    post: Seq<Blob>,
    g: nat,
    count: nat,
    steps: nat,
    cap: nat,
) -> bool {
    exists|pops: Seq<Seq<Blob>>, counts: Seq<nat>|
        #[trigger] generation_trace_ok(pops, counts, pre, post, g, steps, cap) && (g > 0
            ==> counts[g - 1] == count)
}

/// The simulation environment: the current population and the generational
/// bookkeeping around it.
pub struct Simulator {
    /// The current generation's population.
    pub blobs: Vec<Blob>,
    /// Number of agents every generation is repopulated up to.
    pub population_cap: usize,
    /// Steps each generation runs before selection.
    pub steps_per_gen: usize,
    /// Number of generations to run before the simulation freezes.
    pub gens: usize,
    /// Completed generations.
    pub generation: usize,
    /// Steps taken in the current generation.
    pub age: usize,
    /// The most recent selection's survivor count; the population cap
    /// before the first selection.
    pub survived: usize,
    /// The run's own random generator.
    pub rng: rand::rngs::StdRng,
}

impl Simulator {
    /// Every agent is well-formed and its internal neurons are within
    /// `bound`.
    pub open spec fn blobs_ok(blobs: Seq<Blob>, bound: int) -> bool {
        forall|j: int|
            0 <= j < blobs.len() ==> (#[trigger] blobs[j]).wf() && blobs[j].internal_state.bounded(
                bound,
            ) && blobs[j].internal_state.i0 >= 0
    }

    /// The engine's invariant: the population is full, the configuration is
    /// in range, the bookkeeping is consistent, and every agent's internal
    /// state has grown by at most 1.0 per step taken this generation.
    pub open spec fn wf(self) -> bool {
        &&& self.blobs@.len() == self.population_cap
        &&& 0 < self.population_cap
        &&& 0 < self.steps_per_gen <= STEPS_MAX
        &&& self.age <= self.steps_per_gen
        &&& self.generation <= self.gens
        &&& self.survived <= self.population_cap
        &&& Self::blobs_ok(self.blobs@, SCALE * (1 + self.age as int))
    }

    /// The fields that configure a run, unchanged between two states.
    pub open spec fn same_config(self, other: Self) -> bool {
        &&& self.population_cap == other.population_cap
        &&& self.steps_per_gen == other.steps_per_gen
        &&& self.gens == other.gens
    }

    /// Build an engine around a caller-supplied starting population. The
    /// population cap is that population's size.
    pub fn new(blobs: Vec<Blob>, steps_per_gen: usize, gens: usize, seed: u64) -> (s: Self)
        requires
            0 < blobs@.len(),
            0 < steps_per_gen <= STEPS_MAX,
            Self::blobs_ok(blobs@, SCALE as int),
        ensures
            s.wf(),
            s.blobs@ == blobs@,
            s.population_cap == blobs@.len(),
            s.steps_per_gen == steps_per_gen,
            s.gens == gens,
            s.generation == 0,
            s.age == 0,
            s.survived == blobs@.len(),
    {
        let population_cap = blobs.len();
        Self {
            blobs,
            population_cap,
            steps_per_gen,
            gens,
            generation: 0,
            age: 0,
            survived: population_cap,
            rng: rng_from_seed(seed),
        }
    }

    /// Build an engine filled with randomly generated blobs.
    pub fn random_new(population_cap: usize, steps_per_gen: usize, gens: usize, seed: u64) -> (s:
        Self)
        requires
            0 < population_cap,
            0 < steps_per_gen <= STEPS_MAX,
        ensures
            s.wf(),
            s.population_cap == population_cap,
            s.steps_per_gen == steps_per_gen,
            s.gens == gens,
            s.generation == 0,
            s.age == 0,
            s.survived == population_cap,
    {
        let mut rng = rng_from_seed(seed);
        let mut blobs: Vec<Blob> = Vec::new();
        while blobs.len() < population_cap
            invariant
                blobs@.len() <= population_cap,
                Self::blobs_ok(blobs@, SCALE as int),
            decreases population_cap - blobs@.len(),
        {
            let b = Blob::random_new(&mut rng);
            blobs.push(b);
        }
        Self {
            blobs,
            population_cap,
            steps_per_gen,
            gens,
            generation: 0,
            age: 0,
            survived: population_cap,
            rng,
        }
    }

    /// Advance the whole population by one step: every agent, independently,
    /// evaluates its genomes and applies the resulting movement and
    /// internal-state deltas. No agent reads another agent's state, and no
    /// agent's genome set changes.
    pub fn step(&mut self)
        requires
            old(self).wf(),
            old(self).age < old(self).steps_per_gen,
        ensures
            final(self).wf(),
            final(self).same_config(*old(self)),
            final(self).gens == old(self).gens,
            final(self).generation == old(self).generation,
            final(self).survived == old(self).survived,
            final(self).age == old(self).age + 1,
            final(self).blobs@.len() == old(self).blobs@.len(),
            forall|j: int|
                0 <= j < old(self).blobs@.len() ==> (#[trigger] final(self).blobs@[j]).genomes
                    == old(self).blobs@[j].genomes,
            forall|j: int|
                0 <= j < old(self).blobs@.len() ==> blob_stepped(
                    old(self).blobs@[j],
                    #[trigger] final(self).blobs@[j],
                ),
            popn_stepped_once(old(self).blobs@, final(self).blobs@),
    {
        let ghost pre = *self;
        let n = self.blobs.len();
        let mut j: usize = 0;
        while j < n
            invariant
                j <= n,
                n == pre.blobs@.len(),
                pre.wf(),
                pre.age < pre.steps_per_gen,
                self.blobs@.len() == n,
                self.population_cap == pre.population_cap,
                self.steps_per_gen == pre.steps_per_gen,
                self.gens == pre.gens,
                self.generation == pre.generation,
                self.survived == pre.survived,
                self.age == pre.age,
                forall|jj: int| j <= jj < n ==> self.blobs@[jj] == pre.blobs@[jj],
                forall|jj: int|
                    0 <= jj < j ==> (#[trigger] self.blobs@[jj]).wf()
                        && self.blobs@[jj].internal_state.bounded(SCALE * (2 + pre.age as int))
                        && self.blobs@[jj].internal_state.i0 >= 0 && self.blobs@[jj].genomes
                        == pre.blobs@[jj].genomes && blob_stepped(
                        pre.blobs@[jj],
                        self.blobs@[jj],
                    ),
            decreases n - j,
        {
            let b = self.blobs[j];
            assert(b == pre.blobs@[j as int]);
            assert(b.wf() && b.internal_state.bounded(SCALE * (1 + pre.age as int)));
            assert(SCALE * (1 + pre.age as int) <= INTERNAL_LIMIT as int);
            let r = draw_i64(&mut self.rng, -SCALE, SCALE);
            let ux = draw_i64(&mut self.rng, 0, SCALE - 1);
            let uy = draw_i64(&mut self.rng, 0, SCALE - 1);
            let nb = apply_step(&b, r, ux, uy);
            proof {
                assert(nb.internal_state.bounded(SCALE * (2 + pre.age as int)));
                assert(blob_stepped(pre.blobs@[j as int], nb));
            }
            self.blobs.set(j, nb);
            j = j + 1;
        }
        self.age = self.age + 1;
        proof {
            assert(SCALE * (2 + pre.age as int) == SCALE * (1 + self.age as int));
        }
    }

    /// Run the current generation's remaining steps: the final population
    /// is the image of the old one under exactly `steps_per_gen` whole
    /// per-step updates. Genetics never change during a generation; only
    /// positions and internal state do.
    pub fn run_generation(&mut self)
        requires
            old(self).wf(),
            old(self).age == 0,
        ensures
            final(self).wf(),
            final(self).same_config(*old(self)),
            final(self).generation == old(self).generation,
            final(self).survived == old(self).survived,
            final(self).age == final(self).steps_per_gen,
            final(self).blobs@.len() == old(self).blobs@.len(),
            forall|j: int|
                0 <= j < old(self).blobs@.len() ==> (#[trigger] final(self).blobs@[j]).genomes
                    == old(self).blobs@[j].genomes,
            popn_stepped(old(self).blobs@, final(self).blobs@, old(self).steps_per_gen as nat),
    {
        let ghost pre = *self;
        let ghost mut trace: Seq<Seq<Blob>> = seq![pre.blobs@];
        let spg = self.steps_per_gen;
        let mut t: usize = 0;
        while t < spg
            invariant
                t <= spg,
                spg == pre.steps_per_gen,
                self.wf(),
                self.same_config(pre),
                self.generation == pre.generation,
                self.survived == pre.survived,
                self.age == t,
                self.blobs@.len() == pre.blobs@.len(),
                forall|j: int|
                    0 <= j < pre.blobs@.len() ==> (#[trigger] self.blobs@[j]).genomes
                        == pre.blobs@[j].genomes,
                step_trace_ok(trace, pre.blobs@, self.blobs@, t as nat),
            decreases spg - t,
        {
            let ghost mid = self.blobs@;
            self.step();
            proof {
                let prior = trace;
                trace = trace.push(self.blobs@);
                assert forall|i: int| 0 <= i < t + 1 implies popn_stepped_once(
                    #[trigger] trace[i],
                    trace[i + 1],
                ) by {
                    if i < t {
                        assert(trace[i] == prior[i]);
                        assert(trace[i + 1] == prior[i + 1]);
                    } else {
                        assert(trace[i] == mid);
                        assert(trace[i + 1] == self.blobs@);
                        assert(popn_stepped_once(mid, self.blobs@));
                    }
                }
                assert(step_trace_ok(trace, pre.blobs@, self.blobs@, (t + 1) as nat));
            }
            t = t + 1;
        }
        proof {
            assert(step_trace_ok(trace, pre.blobs@, self.blobs@, spg as nat));
            assert(popn_stepped(pre.blobs@, self.blobs@, pre.steps_per_gen as nat));
        }
    }

    /// Collect the current population's survivors, in population order.
    pub fn select_survivors(&self) -> (survivors: Vec<Blob>)
        ensures
            survivors@ == spec_survivors(self.blobs@),
    {
        let n = self.blobs.len();
        let mut survivors: Vec<Blob> = Vec::new();
        proof {
            reveal(Seq::filter);
        }
        let mut j: usize = 0;
        while j < n
            invariant
                j <= n,
                n == self.blobs@.len(),
                survivors@ == spec_survivors(self.blobs@.take(j as int)),
            decreases n - j,
        {
            let b = self.blobs[j];
            proof {
                reveal(Seq::filter);
                assert(self.blobs@.take(j + 1).drop_last() =~= self.blobs@.take(j as int));
                assert(self.blobs@.take(j + 1).last() == self.blobs@[j as int]);
            }
            if b.x >= 0 {
                survivors.push(b);
            }
            j = j + 1;
        }
        proof {
            assert(self.blobs@.take(n as int) =~= self.blobs@);
        }
        survivors
    }

    /// End the current generation: select the survivors, record their
    /// count, and repopulate a full next generation by sampling survivor
    /// genome sets uniformly with replacement. A generation without
    /// survivors is terminal: the engine reports `Extinction` and stays
    /// exactly as it was.
    pub fn finish_generation(&mut self) -> (res: Result<usize, Extinction>)
        requires
            old(self).wf(),
            old(self).age == old(self).steps_per_gen,
            old(self).generation < old(self).gens,
        ensures
            res is Err <==> spec_survivors(old(self).blobs@).len() == 0,
            res is Err ==> *final(self) == *old(self),
            res matches Ok(n) ==> {
                &&& n == spec_survivors(old(self).blobs@).len()
                &&& 1 <= n <= old(self).population_cap
                &&& final(self).wf()
                &&& final(self).same_config(*old(self))
                &&& final(self).survived == n
                &&& final(self).generation == old(self).generation + 1
                &&& final(self).age == 0
                &&& final(self).blobs@.len() == old(self).population_cap
                &&& forall|j: int|
                    0 <= j < final(self).blobs@.len() ==> inherits_from(
                        #[trigger] final(self).blobs@[j],
                        spec_survivors(old(self).blobs@),
                    )
            },
    {
        let ghost pre = *self;
        let survivors = self.select_survivors();
        let n = survivors.len();
        if n == 0 {
            return Err(Extinction);
        }
        proof {
            broadcast use vstd::seq_lib::group_filter_ensures;

            assert(spec_survivors(pre.blobs@).len() <= pre.blobs@.len());
            lemma_survivors_ok(pre.blobs@, SCALE * (1 + pre.age as int));
        }
        let cap = self.population_cap;
        let mut next: Vec<Blob> = Vec::new();
        while next.len() < cap
            invariant
                next@.len() <= cap,
                pre.wf(),
                pre.generation < pre.gens,
                pre.age == pre.steps_per_gen,
                self.blobs@ == pre.blobs@,
                self.population_cap == pre.population_cap,
                self.steps_per_gen == pre.steps_per_gen,
                self.gens == pre.gens,
                self.generation == pre.generation,
                self.age == pre.age,
                self.survived == pre.survived,
                cap == pre.population_cap,
                n == survivors@.len(),
                0 < n <= cap,
                survivors@ == spec_survivors(pre.blobs@),
                forall|i: int| 0 <= i < n ==> (#[trigger] survivors@[i]).wf(),
                forall|j: int|
                    0 <= j < next@.len() ==> (#[trigger] next@[j]).wf()
                        && next@[j].internal_state.bounded(SCALE as int)
                        && next@[j].internal_state.i0 >= 0 && inherits_from(
                        next@[j],
                        survivors@,
                    ),
            decreases cap - next@.len(),
        {
            let pick = draw_index(&mut self.rng, n);
            let nb = Blob::random_pos(survivors[pick].genomes, &mut self.rng);
            proof {
                assert(inherits_from(nb, survivors@));
            }
            next.push(nb);
        }
        self.blobs = next;
        self.survived = n;
        self.generation = self.generation + 1;
        self.age = 0;
        Ok(n)
    }

    /// Drive the whole simulation: run and conclude each generation in
    /// turn until `gens` generations have completed, or until a generation
    /// ends with no survivors, which stops the run with `Extinction`. On
    /// success the final population is linked to the starting one by `gens`
    /// whole generational cycles, and `survived` reports the last cycle's
    /// survivor count.
    pub fn run(&mut self) -> (res: Result<(), Extinction>)
        requires
            old(self).wf(),
            old(self).generation == 0,
            old(self).age == 0,
        ensures
            final(self).wf(),
            final(self).same_config(*old(self)),
            res is Ok ==> final(self).generation == final(self).gens && final(self).age == 0,
            res is Ok ==> generations_run(
                old(self).blobs@,
                final(self).blobs@,
                final(self).gens as nat,
                final(self).survived as nat,
                old(self).steps_per_gen as nat,
                old(self).population_cap as nat,
            ),
            res is Err ==> spec_survivors(final(self).blobs@).len() == 0 && final(self).age
                == final(self).steps_per_gen && final(self).generation < final(self).gens,
    {
        let ghost mut pops: Seq<Seq<Blob>> = seq![old(self).blobs@];
        let ghost mut counts: Seq<nat> = Seq::empty();
        while self.generation < self.gens
            invariant
                self.wf(),
                self.age == 0,
                self.same_config(*old(self)),
                generation_trace_ok(
                    pops,
                    counts,
                    old(self).blobs@,
                    self.blobs@,
                    self.generation as nat,
                    old(self).steps_per_gen as nat,
                    old(self).population_cap as nat,
                ),
                self.generation > 0 ==> counts[self.generation - 1] == self.survived as nat,
            decreases self.gens - self.generation,
        {
            let ghost cycle_pre = self.blobs@;
            self.run_generation();
            let ghost endp = self.blobs@;
            match self.finish_generation() {
                Ok(_) => {
                    proof {
                        assert(popn_stepped(cycle_pre, endp, old(self).steps_per_gen as nat));
                        assert(generation_cycle(
                            cycle_pre,
                            self.blobs@,
                            old(self).steps_per_gen as nat,
                            self.survived as nat,
                            old(self).population_cap as nat,
                        ));
                        let prior_pops = pops;
                        let prior_counts = counts;
                        let g0: int = self.generation - 1;
                        pops = pops.push(self.blobs@);
                        counts = counts.push(self.survived as nat);
                        assert forall|i: int| 0 <= i < self.generation implies generation_cycle(
                            #[trigger] pops[i],
                            pops[i + 1],
                            old(self).steps_per_gen as nat,
                            counts[i],
                            old(self).population_cap as nat,
                        ) by {
                            if i < g0 {
                                assert(pops[i] == prior_pops[i]);
                                assert(pops[i + 1] == prior_pops[i + 1]);
                                assert(counts[i] == prior_counts[i]);
                            } else {
                                assert(pops[i] == cycle_pre);
                                assert(pops[i + 1] == self.blobs@);
                                assert(counts[i] == self.survived as nat);
                            }
                        }
                        assert(generation_trace_ok(
                            pops,
                            counts,
                            old(self).blobs@,
                            self.blobs@,
                            self.generation as nat,
                            old(self).steps_per_gen as nat,
                            old(self).population_cap as nat,
                        ));
                    }
                },
                Err(e) => {
                    return Err(e);
                },
            }
        }
        proof {
            assert(generations_run(
                old(self).blobs@,
                self.blobs@,
                self.gens as nat,
                self.survived as nat,
                old(self).steps_per_gen as nat,
                old(self).population_cap as nat,
            ));
        }
        Ok(())
    }

    /// The designated sample agent: the population's first slot.
    pub fn sample(&self) -> (b: Blob)
        requires
            self.blobs@.len() > 0,
        ensures
            b == self.blobs@[0],
    {
        self.blobs[0]
    }
}

} // verus!
