//! The per-step update of one agent.
//!
//! Every step, an agent's eight genomes are evaluated against its current
//! state: each genome reads its source's signal, multiplies it by the
//! genome's weight, and accumulates the product into its sink. The movement
//! accumulators are squashed into [-1, 1] and turned into a unit step (or
//! none) by a stochastic threshold; the internal accumulators are squashed
//! and added onto the internal neurons.

use vstd::prelude::*;
use vstd::math::abs;
use crate::blob::{Blob, InternalState, POS_MAX};
use crate::fixed::{SCALE, ACC_LIMIT, spec_squash, squash, lemma_squash_bounds};
use crate::genome::{Genome, WEIGHT_MAX};
use crate::neurons::{Source, Sink};

verus! {

/// Fixed-point units per position unit: a position component of `POS_MAX`
/// reads as a signal of `SCALE` (that is, 1.0).
pub const POS_SIGNAL: i64 = 16;

/// Largest internal-neuron magnitude the step accepts. Internal state grows
/// by at most `SCALE` per step, so this is not reached within `STEPS_MAX`
/// steps of a generation.
pub const INTERNAL_LIMIT: i64 = 1_125_000_000_000;

/// The signal a source produces, for an agent in `b`'s state whose random
/// draw this step is `r`.
pub open spec fn spec_source_value(b: Blob, r: int, s: Source) -> int {
    match s {
        Source::I0 => b.internal_state.i0 as int,
        Source::I1 => b.internal_state.i1 as int,
        Source::I2 => b.internal_state.i2 as int,
        Source::I3 => b.internal_state.i3 as int,
        Source::Random => r,
        Source::Px => b.x as int * POS_SIGNAL,
        Source::Py => b.y as int * POS_SIGNAL,
    }
}

/// What one genome adds into the accumulator of sink `k`: its weighted
/// source signal if it targets `k`, nothing otherwise.
pub open spec fn spec_contrib(b: Blob, r: int, k: Sink, g: Genome) -> int {
    if g.sink == k {
        spec_source_value(b, r, g.source) * (g.weight as int)
    } else {
        0
    }
}

/// The accumulator of sink `k` after evaluating the genomes `gs` in order.
pub open spec fn spec_acc(gs: Seq<Genome>, b: Blob, r: int, k: Sink) -> int
    decreases gs.len(),
{
    if gs.len() == 0 {
        0
    } else {
        spec_acc(gs.drop_last(), b, r, k) + spec_contrib(b, r, k, gs.last())
    }
}

/// The six accumulators a step gathers before applying them: two movement
/// decisions and four internal-neuron deltas.
pub struct Accumulators {
    pub mx: i64,
    pub my: i64,
    pub i0: i64,
    pub i1: i64,
    pub i2: i64,
    pub i3: i64,
}

/// A source's signal is bounded by any bound on the internal neurons that
/// is at least `SCALE`.
proof fn lemma_source_bound(b: Blob, r: int, s: Source, n: int)
    requires
        b.wf(),
        b.internal_state.bounded(n),
        -SCALE <= r <= SCALE,
        n >= SCALE,
    ensures
        -n <= spec_source_value(b, r, s) <= n,
{
}

/// Evaluating one more genome moves the accumulator by that genome's
/// contribution.
proof fn lemma_acc_take_step(gs: Seq<Genome>, b: Blob, r: int, k: Sink, i: int)
    requires
        0 <= i < gs.len(),
    ensures
        spec_acc(gs.take(i + 1), b, r, k) == spec_acc(gs.take(i), b, r, k) + spec_contrib(
            b,
            r,
            k,
            gs[i],
        ),
{
    assert(gs.take(i + 1).drop_last() =~= gs.take(i));
    assert(gs.take(i + 1).last() == gs[i]);
}

/// Gather the six accumulators for one agent, given this step's random
/// signal `r`. The result is exactly the sinkwise sum of the weighted
/// source signals of the agent's genomes, in genome order.
pub fn eval_accumulators(b: &Blob, r: i64) -> (acc: Accumulators)
    requires
        b.wf(),
        b.internal_state.bounded(INTERNAL_LIMIT as int),
        -SCALE <= r <= SCALE,
    ensures
        acc.mx as int == spec_acc(b.genomes@, *b, r as int, Sink::Mx),
        acc.my as int == spec_acc(b.genomes@, *b, r as int, Sink::My),
        acc.i0 as int == spec_acc(b.genomes@, *b, r as int, Sink::I0),
        acc.i1 as int == spec_acc(b.genomes@, *b, r as int, Sink::I1),
        acc.i2 as int == spec_acc(b.genomes@, *b, r as int, Sink::I2),
        acc.i3 as int == spec_acc(b.genomes@, *b, r as int, Sink::I3),
        -ACC_LIMIT <= acc.mx <= ACC_LIMIT,
        -ACC_LIMIT <= acc.my <= ACC_LIMIT,
        -ACC_LIMIT <= acc.i0 <= ACC_LIMIT,
        -ACC_LIMIT <= acc.i1 <= ACC_LIMIT,
        -ACC_LIMIT <= acc.i2 <= ACC_LIMIT,
        -ACC_LIMIT <= acc.i3 <= ACC_LIMIT,
{
    let ghost gs = b.genomes@;
    let ghost ri = r as int;
    let mut acc = Accumulators { mx: 0, my: 0, i0: 0, i1: 0, i2: 0, i3: 0 };
    let mut idx: usize = 0;
    while idx < 8
        invariant
            0 <= idx <= 8,
            gs == b.genomes@,
            ri == r as int,
            b.wf(),
            b.internal_state.bounded(INTERNAL_LIMIT as int),
            -SCALE <= r <= SCALE,
            acc.mx as int == spec_acc(gs.take(idx as int), *b, ri, Sink::Mx),
            acc.my as int == spec_acc(gs.take(idx as int), *b, ri, Sink::My),
            acc.i0 as int == spec_acc(gs.take(idx as int), *b, ri, Sink::I0),
            acc.i1 as int == spec_acc(gs.take(idx as int), *b, ri, Sink::I1),
            acc.i2 as int == spec_acc(gs.take(idx as int), *b, ri, Sink::I2),
            acc.i3 as int == spec_acc(gs.take(idx as int), *b, ri, Sink::I3),
            -(idx * (WEIGHT_MAX * INTERNAL_LIMIT)) <= acc.mx as int <= idx * (WEIGHT_MAX
                * INTERNAL_LIMIT),
            -(idx * (WEIGHT_MAX * INTERNAL_LIMIT)) <= acc.my as int <= idx * (WEIGHT_MAX
                * INTERNAL_LIMIT),
            -(idx * (WEIGHT_MAX * INTERNAL_LIMIT)) <= acc.i0 as int <= idx * (WEIGHT_MAX
                * INTERNAL_LIMIT),
            -(idx * (WEIGHT_MAX * INTERNAL_LIMIT)) <= acc.i1 as int <= idx * (WEIGHT_MAX
                * INTERNAL_LIMIT),
            -(idx * (WEIGHT_MAX * INTERNAL_LIMIT)) <= acc.i2 as int <= idx * (WEIGHT_MAX
                * INTERNAL_LIMIT),
            -(idx * (WEIGHT_MAX * INTERNAL_LIMIT)) <= acc.i3 as int <= idx * (WEIGHT_MAX
                * INTERNAL_LIMIT),
        decreases 8 - idx,
    {
        let g = b.genomes[idx];
        assert(g == gs[idx as int]);
        assert(g.wf());
        let sv: i64 = match g.source {
            Source::I0 => b.internal_state.i0,
            Source::I1 => b.internal_state.i1,
            Source::I2 => b.internal_state.i2,
            Source::I3 => b.internal_state.i3,
            Source::Random => r,
            Source::Px => b.x * POS_SIGNAL,
            Source::Py => b.y * POS_SIGNAL,
        };
        assert(sv as int == spec_source_value(*b, ri, g.source));
        proof {
            lemma_source_bound(*b, ri, g.source, INTERNAL_LIMIT as int);
        }
        assert((sv as int) * (g.weight as int) == spec_contrib(*b, ri, g.sink, g));
        assert(-(WEIGHT_MAX * INTERNAL_LIMIT) <= (sv as int) * (g.weight as int) <= WEIGHT_MAX
            * INTERNAL_LIMIT) by (nonlinear_arith)
            requires
                -INTERNAL_LIMIT <= sv as int <= INTERNAL_LIMIT,
                -WEIGHT_MAX <= g.weight as int <= WEIGHT_MAX,
        ;
        let c: i64 = sv * (g.weight as i64);
        proof {
            assert((idx + 1) * (WEIGHT_MAX * INTERNAL_LIMIT) == idx * (WEIGHT_MAX * INTERNAL_LIMIT)
                + WEIGHT_MAX * INTERNAL_LIMIT) by (nonlinear_arith);
            assert((idx + 1) * (WEIGHT_MAX * INTERNAL_LIMIT) <= 8 * (WEIGHT_MAX * INTERNAL_LIMIT))
                by (nonlinear_arith)
                requires
                    0 <= idx < 8,
            ;
            lemma_acc_take_step(gs, *b, ri, Sink::Mx, idx as int);
            lemma_acc_take_step(gs, *b, ri, Sink::My, idx as int);
            lemma_acc_take_step(gs, *b, ri, Sink::I0, idx as int);
            lemma_acc_take_step(gs, *b, ri, Sink::I1, idx as int);
            lemma_acc_take_step(gs, *b, ri, Sink::I2, idx as int);
            lemma_acc_take_step(gs, *b, ri, Sink::I3, idx as int);
        }
        match g.sink {
            Sink::Mx => acc.mx = acc.mx + c,
            Sink::My => acc.my = acc.my + c,
            Sink::I0 => acc.i0 = acc.i0 + c,
            Sink::I1 => acc.i1 = acc.i1 + c,
            Sink::I2 => acc.i2 = acc.i2 + c,
            Sink::I3 => acc.i3 = acc.i3 + c,
        }
        idx = idx + 1;
    }
    proof {
        assert(gs.take(8) =~= gs);
    }
    acc
}

/// An accumulator reads nothing of the agent but its position and internal
/// state: two agents that agree on those gather the same accumulator from
/// the same genomes.
proof fn lemma_acc_same_env(gs: Seq<Genome>, b1: Blob, b2: Blob, r: int, k: Sink)
    requires
        b1.x == b2.x,
        b1.y == b2.y,
        b1.internal_state == b2.internal_state,
    ensures
        spec_acc(gs, b1, r, k) == spec_acc(gs, b2, r, k),
    decreases gs.len(),
{
    if gs.len() > 0 {
        lemma_acc_same_env(gs.drop_last(), b1, b2, r, k);
    }
}

/// Splitting any one genome out of the set leaves the rest's accumulator
/// plus that genome's contribution.
proof fn lemma_acc_remove(gs: Seq<Genome>, b: Blob, r: int, k: Sink, j: int)
    requires
        0 <= j < gs.len(),
    ensures
        spec_acc(gs, b, r, k) == spec_acc(gs.remove(j), b, r, k) + spec_contrib(b, r, k, gs[j]),
    decreases gs.len(),
{
    if j == gs.len() - 1 {
        assert(gs.remove(j) =~= gs.drop_last());
    } else {
        lemma_acc_remove(gs.drop_last(), b, r, k, j);
        assert(gs.remove(j).drop_last() =~= gs.drop_last().remove(j));
        assert(gs.remove(j).last() == gs.last());
    }
}

/// Accumulation is commutative: two genome sequences holding the same
/// genomes (as a multiset) gather identical accumulators.
pub proof fn lemma_acc_insensitive_to_order(
    gs1: Seq<Genome>,
    gs2: Seq<Genome>,
    b: Blob,
    r: int,
    k: Sink,
)
    requires
        gs1.to_multiset() == gs2.to_multiset(),
    ensures
        spec_acc(gs1, b, r, k) == spec_acc(gs2, b, r, k),
    decreases gs1.len(),
{
    broadcast use vstd::seq_lib::group_to_multiset_ensures;

    if gs1.len() == 0 {
        assert(gs1.to_multiset().len() == gs1.len());
        assert(gs2.to_multiset().len() == gs2.len());
        assert(gs2.len() == 0);
    } else {
        let e = gs1.last();
        let last = gs1.len() - 1;
        assert(gs1[last] == e);
        assert(gs1.to_multiset().count(e) > 0);
        assert(gs2.to_multiset().count(e) > 0);
        assert(gs2.contains(e));
        let j = choose|j: int| 0 <= j < gs2.len() && gs2[j] == e;
        assert(gs1.remove(last).to_multiset() =~= gs1.to_multiset().remove(e));
        assert(gs2.remove(j).to_multiset() =~= gs2.to_multiset().remove(e));
        assert(gs1.remove(last) =~= gs1.drop_last());
        lemma_acc_insensitive_to_order(gs1.drop_last(), gs2.remove(j), b, r, k);
        lemma_acc_remove(gs2, b, r, k, j);
    }
}

/// Reordering an agent's genome set changes nothing of the stepped state:
/// two agents that agree on position and internal state and hold the same
/// genomes, in any order, step to the same position and the same internal
/// state under the same draws.
pub proof fn lemma_step_insensitive_to_genome_order(b1: Blob, b2: Blob, r: int, ux: int, uy: int)
    requires
        b1.x == b2.x,
        b1.y == b2.y,
        b1.internal_state == b2.internal_state,
        b1.genomes@.to_multiset() == b2.genomes@.to_multiset(),
    ensures
        spec_step_x(b1, r, ux) == spec_step_x(b2, r, ux),
        spec_step_y(b1, r, uy) == spec_step_y(b2, r, uy),
        spec_step_i0(b1, r) == spec_step_i0(b2, r),
        spec_step_i1(b1, r) == spec_step_i1(b2, r),
        spec_step_i2(b1, r) == spec_step_i2(b2, r),
        spec_step_i3(b1, r) == spec_step_i3(b2, r),
{
    lemma_acc_insensitive_to_order(b1.genomes@, b2.genomes@, b1, r, Sink::Mx);
    lemma_acc_insensitive_to_order(b1.genomes@, b2.genomes@, b1, r, Sink::My);
    lemma_acc_insensitive_to_order(b1.genomes@, b2.genomes@, b1, r, Sink::I0);
    lemma_acc_insensitive_to_order(b1.genomes@, b2.genomes@, b1, r, Sink::I1);
    lemma_acc_insensitive_to_order(b1.genomes@, b2.genomes@, b1, r, Sink::I2);
    lemma_acc_insensitive_to_order(b1.genomes@, b2.genomes@, b1, r, Sink::I3);
    lemma_acc_same_env(b2.genomes@, b1, b2, r, Sink::Mx);
    lemma_acc_same_env(b2.genomes@, b1, b2, r, Sink::My);
    lemma_acc_same_env(b2.genomes@, b1, b2, r, Sink::I0);
    lemma_acc_same_env(b2.genomes@, b1, b2, r, Sink::I1);
    lemma_acc_same_env(b2.genomes@, b1, b2, r, Sink::I2);
    lemma_acc_same_env(b2.genomes@, b1, b2, r, Sink::I3);
}

/// The movement decision: a unit step of the sign of `p`, taken only when
/// the threshold draw `u` falls below `|p|`, and suppressed entirely when
/// one step in that direction would reach or pass the board's edge.
pub open spec fn spec_translate(pos: int, p: int, u: int) -> int {
    let d: int = if p >= 0 { 1 } else { -1 };
    if abs(pos + d) >= POS_MAX {
        0
    } else if u < abs(p) {
        d
    } else {
        0
    }
}

/// The movement decision is a unit step or nothing; it never carries a
/// position out of [-POS_MAX, POS_MAX] (a nonzero step even stays strictly
/// inside); and a zero likelihood never moves, whatever was drawn.
pub proof fn lemma_translate_props(pos: int, p: int, u: int)
    requires
        -POS_MAX <= pos <= POS_MAX,
        u >= 0,
    ensures
        spec_translate(pos, p, u) == 0 || spec_translate(pos, p, u) == 1 || spec_translate(
            pos,
            p,
            u,
        ) == -1,
        spec_translate(pos, p, u) != 0 ==> -POS_MAX < pos + spec_translate(pos, p, u) < POS_MAX,
        -POS_MAX <= pos + spec_translate(pos, p, u) <= POS_MAX,
        p == 0 ==> spec_translate(pos, p, u) == 0,
{
}

/// One movement decision, fully determined by its arguments. `pos` is the
/// current position component, `p` the squashed movement accumulator, and
/// `u` the threshold draw (in [0, SCALE), standing for [0, 1)).
pub fn translate(pos: i64, p: i64, u: i64) -> (d: i64)
    requires
        -POS_MAX <= pos <= POS_MAX,
        -SCALE <= p <= SCALE,
        0 <= u,
    ensures
        d == spec_translate(pos as int, p as int, u as int),
        d == 0 || d == 1 || d == -1,
        -POS_MAX <= pos + d <= POS_MAX,
        p == 0 ==> d == 0,
{
    let dir: i64 = if p >= 0 {
        1
    } else {
        -1
    };
    let next = pos + dir;
    let next_mag = if next >= 0 {
        next
    } else {
        -next
    };
    if next_mag >= POS_MAX {
        return 0;
    }
    let p_mag = if p >= 0 {
        p
    } else {
        -p
    };
    if u < p_mag {
        dir
    } else {
        0
    }
}

/// The agent's x position after one step, given the random signal `r` and
/// the x-axis threshold draw `ux`.
pub open spec fn spec_step_x(b: Blob, r: int, ux: int) -> int {
    b.x + spec_translate(b.x as int, spec_squash(spec_acc(b.genomes@, b, r, Sink::Mx)), ux)
}

/// The agent's y position after one step.
pub open spec fn spec_step_y(b: Blob, r: int, uy: int) -> int {
    b.y + spec_translate(b.y as int, spec_squash(spec_acc(b.genomes@, b, r, Sink::My)), uy)
}

/// Internal neuron 0 after one step: it accumulates the magnitude of its
/// squashed signal, so it never decreases.
pub open spec fn spec_step_i0(b: Blob, r: int) -> int {
    b.internal_state.i0 + abs(spec_squash(spec_acc(b.genomes@, b, r, Sink::I0)))
}

/// Internal neuron 1 after one step: it accumulates its squashed signal.
pub open spec fn spec_step_i1(b: Blob, r: int) -> int {
    b.internal_state.i1 + spec_squash(spec_acc(b.genomes@, b, r, Sink::I1))
}

/// Internal neuron 2 after one step.
pub open spec fn spec_step_i2(b: Blob, r: int) -> int {
    b.internal_state.i2 + spec_squash(spec_acc(b.genomes@, b, r, Sink::I2))
}

/// Internal neuron 3 after one step.
pub open spec fn spec_step_i3(b: Blob, r: int) -> int {
    b.internal_state.i3 + spec_squash(spec_acc(b.genomes@, b, r, Sink::I3))
}

/// The boundary-suppression invariant: whatever the random signal and the
/// threshold draws, a step never carries a position component off the
/// board, and internal neuron 0 never decreases.
pub proof fn lemma_step_stays_on_board(b: Blob, r: int, ux: int, uy: int)
    requires
        b.wf(),
        ux >= 0,
        uy >= 0,
    ensures
        -POS_MAX <= spec_step_x(b, r, ux) <= POS_MAX,
        -POS_MAX <= spec_step_y(b, r, uy) <= POS_MAX,
        spec_step_i0(b, r) >= b.internal_state.i0,
{
    lemma_translate_props(b.x as int, spec_squash(spec_acc(b.genomes@, b, r, Sink::Mx)), ux);
    lemma_translate_props(b.y as int, spec_squash(spec_acc(b.genomes@, b, r, Sink::My)), uy);
}

/// Apply one step to an agent, fully determined by its arguments: `r` is
/// the agent's random signal for this step (in [-SCALE, SCALE]) and `ux`,
/// `uy` the two movement threshold draws (non-negative). The new state is
/// exactly the stepped state; in particular the genome set is untouched,
/// the position stays on the board and moves by at most one unit per axis,
/// internal neuron 0 never decreases, and no internal neuron moves by more
/// than `SCALE`.
pub fn apply_step(b: &Blob, r: i64, ux: i64, uy: i64) -> (nb: Blob)
    requires
        b.wf(),
        b.internal_state.bounded(INTERNAL_LIMIT as int),
        -SCALE <= r <= SCALE,
        0 <= ux,
        0 <= uy,
    ensures
        nb.x as int == spec_step_x(*b, r as int, ux as int),
        nb.y as int == spec_step_y(*b, r as int, uy as int),
        nb.internal_state.i0 as int == spec_step_i0(*b, r as int),
        nb.internal_state.i1 as int == spec_step_i1(*b, r as int),
        nb.internal_state.i2 as int == spec_step_i2(*b, r as int),
        nb.internal_state.i3 as int == spec_step_i3(*b, r as int),
        nb.genomes == b.genomes,
        nb.wf(),
        -1 <= nb.x - b.x <= 1,
        -1 <= nb.y - b.y <= 1,
        nb.internal_state.i0 >= b.internal_state.i0,
        b.internal_state.i0 as int <= nb.internal_state.i0 as int <= b.internal_state.i0 + SCALE,
        b.internal_state.i1 - SCALE <= nb.internal_state.i1 as int <= b.internal_state.i1 + SCALE,
        b.internal_state.i2 - SCALE <= nb.internal_state.i2 as int <= b.internal_state.i2 + SCALE,
        b.internal_state.i3 - SCALE <= nb.internal_state.i3 as int <= b.internal_state.i3 + SCALE,
{
    let acc = eval_accumulators(b, r);
    let px = squash(acc.mx);
    let py = squash(acc.my);
    let dx = translate(b.x, px, ux);
    let dy = translate(b.y, py, uy);
    let t0 = squash(acc.i0);
    let t0_mag = if t0 >= 0 {
        t0
    } else {
        -t0
    };
    let t1 = squash(acc.i1);
    let t2 = squash(acc.i2);
    let t3 = squash(acc.i3);
    Blob {
        x: b.x + dx,
        y: b.y + dy,
        genomes: b.genomes,
        internal_state: InternalState {
            i0: b.internal_state.i0 + t0_mag,
            i1: b.internal_state.i1 + t1,
            i2: b.internal_state.i2 + t2,
            i3: b.internal_state.i3 + t3,
        },
    }
}

} // verus!
