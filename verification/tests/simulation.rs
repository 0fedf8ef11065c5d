use blobsim::blob::{Blob, InternalState, POS_MAX};
use blobsim::fixed::{squash, SCALE};
use blobsim::genome::{Genome, Genomes};
use blobsim::neurons::{Sink, Source};
use blobsim::rng::rng_from_seed;
use blobsim::simulate::{Extinction, Simulator};
use blobsim::step::{apply_step, eval_accumulators, translate};

/// A genome that contributes nothing, whatever the agent's state.
fn inert() -> Genome {
    Genome { source: Source::I1, sink: Sink::I1, weight: 0 }
}

fn inert_set() -> Genomes {
    [inert(); 8]
}

fn zero_state() -> InternalState {
    InternalState { i0: 0, i1: 0, i2: 0, i3: 0 }
}

fn still_blob(x: i64, y: i64, genomes: Genomes) -> Blob {
    Blob { x, y, genomes, internal_state: zero_state() }
}

/// A genome set whose agents drift right: x position feeds the x movement.
fn drift_right_set(weight: i8) -> Genomes {
    let mut gs = inert_set();
    gs[0] = Genome { source: Source::Px, sink: Sink::Mx, weight };
    gs
}

#[test]
fn squash_fixes_zero_and_is_identity_near_zero() {
    assert_eq!(squash(0), 0);
    assert_eq!(squash(100), 100);
    assert_eq!(squash(-100), -100);
    assert_eq!(squash(512), 512);
    assert_eq!(squash(-512), -512);
}

#[test]
fn squash_flattens_and_saturates() {
    // Second linear piece: 384 + a / 4.
    assert_eq!(squash(1024), 640);
    assert_eq!(squash(2048), 896);
    // Third linear piece: 896 + (a - 2048) / 16.
    assert_eq!(squash(3072), 960);
    assert_eq!(squash(4096), 1024);
    // Saturation at 1.0.
    assert_eq!(squash(5120), 1024);
    assert_eq!(squash(-5120), -1024);
    assert_eq!(squash(90_000_000_000_000), 1024);
}

#[test]
fn translate_zero_likelihood_never_moves() {
    // Whatever the threshold draw, a zero likelihood stays put.
    for u in [0, 1, 500, 1023] {
        assert_eq!(translate(0, 0, u), 0);
        assert_eq!(translate(40, 0, u), 0);
        assert_eq!(translate(-40, 0, u), 0);
    }
}

#[test]
fn translate_suppresses_moves_at_the_edge() {
    // One step right from 63 would reach the boundary: suppressed.
    assert_eq!(translate(63, SCALE, 0), 0);
    assert_eq!(translate(POS_MAX, SCALE, 0), 0);
    // One step left from -63 would reach the boundary: suppressed.
    assert_eq!(translate(-63, -SCALE, 0), 0);
    assert_eq!(translate(-POS_MAX, -SCALE, 0), 0);
    // Moving away from the edge is allowed.
    assert_eq!(translate(POS_MAX, -SCALE, 0), -1);
    assert_eq!(translate(-POS_MAX, SCALE, 0), 1);
}

#[test]
fn translate_commits_by_threshold() {
    // u below |p| moves one unit in p's direction, otherwise not.
    assert_eq!(translate(0, 600, 599), 1);
    assert_eq!(translate(0, 600, 600), 0);
    assert_eq!(translate(0, -600, 599), -1);
    assert_eq!(translate(0, -600, 600), 0);
}

#[test]
fn accumulators_weight_the_position_signal() {
    // One genome Px -> Mx with weight 10, at x = 0.5 (32 units): the x
    // signal is 0.5 in fixed point (512), so the accumulator is 5.0 (5120).
    let b = still_blob(32, 0, drift_right_set(10));
    let acc = eval_accumulators(&b, 0);
    assert_eq!(acc.mx, 5120);
    assert_eq!(acc.my, 0);
    assert_eq!(acc.i0, 0);
    assert_eq!(acc.i1, 0);
    assert_eq!(acc.i2, 0);
    assert_eq!(acc.i3, 0);
    // The squashed movement likelihood saturates near 1.
    assert_eq!(squash(acc.mx), SCALE);
}

#[test]
fn accumulators_sum_over_genomes_of_one_sink() {
    // Two genomes of the same sink add their contributions.
    let mut gs = inert_set();
    gs[0] = Genome { source: Source::Px, sink: Sink::Mx, weight: 3 };
    gs[1] = Genome { source: Source::Px, sink: Sink::Mx, weight: -1 };
    let b = still_blob(32, 0, gs);
    let acc = eval_accumulators(&b, 0);
    assert_eq!(acc.mx, 512 * 3 - 512);
}

#[test]
fn accumulators_read_the_random_signal() {
    let mut gs = inert_set();
    gs[0] = Genome { source: Source::Random, sink: Sink::I2, weight: 2 };
    let b = still_blob(0, 0, gs);
    let acc = eval_accumulators(&b, -700);
    assert_eq!(acc.i2, -1400);
}

#[test]
fn accumulators_ignore_genome_order() {
    let mut gs = inert_set();
    gs[0] = Genome { source: Source::Px, sink: Sink::Mx, weight: 7 };
    gs[3] = Genome { source: Source::Py, sink: Sink::My, weight: -2 };
    gs[6] = Genome { source: Source::Random, sink: Sink::I0, weight: 5 };
    let mut reordered = gs;
    reordered.reverse();
    let b1 = still_blob(20, -12, gs);
    let b2 = still_blob(20, -12, reordered);
    let a1 = eval_accumulators(&b1, 333);
    let a2 = eval_accumulators(&b2, 333);
    assert_eq!(a1.mx, a2.mx);
    assert_eq!(a1.my, a2.my);
    assert_eq!(a1.i0, a2.i0);
    assert_eq!(a1.i1, a2.i1);
    assert_eq!(a1.i2, a2.i2);
    assert_eq!(a1.i3, a2.i3);
}

#[test]
fn reordered_genomes_step_identically() {
    let mut gs = inert_set();
    gs[0] = Genome { source: Source::Px, sink: Sink::Mx, weight: 9 };
    gs[2] = Genome { source: Source::I1, sink: Sink::I0, weight: 4 };
    let mut reordered = gs;
    reordered.swap(0, 7);
    reordered.swap(2, 5);
    let b1 = Blob {
        x: 10,
        y: -3,
        genomes: gs,
        internal_state: InternalState { i0: 5, i1: 800, i2: -4, i3: 0 },
    };
    let b2 = Blob { genomes: reordered, ..b1 };
    let n1 = apply_step(&b1, 250, 17, 902);
    let n2 = apply_step(&b2, 250, 17, 902);
    assert_eq!(n1.x, n2.x);
    assert_eq!(n1.y, n2.y);
    assert_eq!(n1.internal_state, n2.internal_state);
}

#[test]
fn drifting_agent_stops_at_the_boundary() {
    // An agent with the single genome {Px -> Mx, weight 10} at x = 0.5 has
    // movement likelihood 1.0 once squashed, so with threshold draw 0 it
    // moves one unit right every step until one more step would reach the
    // edge; there movement is suppressed and x holds at 63.
    let mut b = still_blob(32, 0, drift_right_set(10));
    for _ in 0..31 {
        b = apply_step(&b, 0, 0, 0);
    }
    assert_eq!(b.x, 63);
    for _ in 0..5 {
        b = apply_step(&b, 0, 0, 0);
        assert_eq!(b.x, 63);
    }
    // The y axis never had a signal: it never moved.
    assert_eq!(b.y, 0);
}

#[test]
fn internal_neuron_zero_only_grows() {
    let mut gs = inert_set();
    gs[0] = Genome { source: Source::Px, sink: Sink::I0, weight: -10 };
    let mut b = still_blob(32, 0, gs);
    // The accumulator is -5120, squashed to -1024; i0 adds its magnitude.
    b = apply_step(&b, 0, 0, 0);
    assert_eq!(b.internal_state.i0, 1024);
    b = apply_step(&b, 0, 0, 0);
    assert_eq!(b.internal_state.i0, 2048);
}

#[test]
fn signed_internal_neurons_move_both_ways() {
    let mut gs = inert_set();
    gs[0] = Genome { source: Source::Px, sink: Sink::I3, weight: -10 };
    let mut b = still_blob(32, 0, gs);
    b = apply_step(&b, 0, 0, 0);
    assert_eq!(b.internal_state.i3, -1024);
}

#[test]
fn positions_stay_on_the_board_through_a_run() {
    let mut sim = Simulator::random_new(20, 40, 2, 7);
    let _ = sim.run();
    for b in sim.blobs.iter() {
        assert!(-POS_MAX <= b.x && b.x <= POS_MAX);
        assert!(-POS_MAX <= b.y && b.y <= POS_MAX);
    }
}

#[test]
fn selection_counts_agents_with_non_negative_x() {
    let a_set = drift_right_set(1);
    let b_set = drift_right_set(2);
    let blobs = vec![
        still_blob(0, 10, inert_set()),
        still_blob(5, -2, a_set),
        still_blob(-1, 0, b_set),
        still_blob(-64, 3, inert_set()),
    ];
    let sim = Simulator::new(blobs, 1, 1, 11);
    let survivors = sim.select_survivors();
    assert_eq!(survivors.len(), 2);
    assert_eq!(survivors[0].x, 0);
    assert_eq!(survivors[1].x, 5);
}

#[test]
fn repopulation_copies_one_survivor_genome_set_per_slot() {
    // Population cap 4; the two survivors hold genome sets A and B. Inert
    // weights keep every agent exactly where it started through the one
    // step of the generation, so selection is fully determined.
    let set_a: Genomes = [Genome { source: Source::I2, sink: Sink::I3, weight: 0 }; 8];
    let set_b: Genomes = [Genome { source: Source::I3, sink: Sink::I2, weight: 0 }; 8];
    let set_c: Genomes = [Genome { source: Source::I1, sink: Sink::I1, weight: 0 }; 8];
    let blobs = vec![
        still_blob(3, 0, set_a),
        still_blob(-20, 5, set_c),
        still_blob(17, -8, set_b),
        still_blob(-6, 1, set_c),
    ];
    let mut sim = Simulator::new(blobs, 1, 1, 99);
    sim.run_generation();
    let res = sim.finish_generation();
    assert_eq!(res, Ok(2));
    assert_eq!(sim.survived, 2);
    assert_eq!(sim.generation, 1);
    assert_eq!(sim.blobs.len(), 4);
    for nb in sim.blobs.iter() {
        // Every new agent's genome set is exactly A or exactly B: never a
        // blend, never the eliminated C.
        assert!(nb.genomes == set_a || nb.genomes == set_b);
    }
}

#[test]
fn extinct_generation_is_a_terminal_failure() {
    // Every agent sits left of the boundary and nothing ever moves: the
    // first selection has no survivors.
    let blobs = vec![
        still_blob(-1, 0, inert_set()),
        still_blob(-30, 12, inert_set()),
        still_blob(-64, -64, inert_set()),
    ];
    let mut sim = Simulator::new(blobs, 1, 3, 5);
    let res = sim.run();
    assert_eq!(res, Err(Extinction));
    // The failed generation's population is held as it was.
    assert_eq!(sim.blobs.len(), 3);
    assert_eq!(sim.generation, 0);
}

#[test]
fn whole_run_completes_and_reports_survival() {
    // Agents that drift right survive selection; with every agent sharing
    // the drift genome the population never goes extinct.
    let mut blobs = Vec::new();
    for i in 0..6 {
        blobs.push(still_blob(8 * i, 0, drift_right_set(10)));
    }
    let mut sim = Simulator::new(blobs, 5, 4, 23);
    let res = sim.run();
    assert_eq!(res, Ok(()));
    assert_eq!(sim.generation, 4);
    assert!(1 <= sim.survived && sim.survived <= sim.population_cap);
}

#[test]
fn random_genomes_keep_weights_in_range() {
    let mut rng = rng_from_seed(1);
    for _ in 0..200 {
        let g = Genome::random_new(&mut rng);
        assert!(-10 <= g.weight && g.weight <= 10);
    }
}

#[test]
fn random_blobs_start_inside_the_board() {
    let mut rng = rng_from_seed(2);
    for _ in 0..100 {
        let b = Blob::random_new(&mut rng);
        assert!(-POS_MAX <= b.x && b.x <= POS_MAX);
        assert!(-POS_MAX <= b.y && b.y <= POS_MAX);
        assert!(0 <= b.internal_state.i0 && b.internal_state.i0 <= SCALE);
        assert!(-SCALE <= b.internal_state.i1 && b.internal_state.i1 <= SCALE);
        assert!(-SCALE <= b.internal_state.i2 && b.internal_state.i2 <= SCALE);
        assert!(-SCALE <= b.internal_state.i3 && b.internal_state.i3 <= SCALE);
    }
}

#[test]
fn inherited_genomes_carry_over_exactly() {
    let mut rng = rng_from_seed(3);
    let gs = drift_right_set(-7);
    for _ in 0..20 {
        let b = Blob::random_pos(gs, &mut rng);
        assert!(b.genomes == gs);
    }
}

#[test]
fn seeded_runs_are_reproducible() {
    let mut rng1 = rng_from_seed(42);
    let mut rng2 = rng_from_seed(42);
    for _ in 0..20 {
        let b1 = Blob::random_new(&mut rng1);
        let b2 = Blob::random_new(&mut rng2);
        assert_eq!(b1.x, b2.x);
        assert_eq!(b1.y, b2.y);
        assert_eq!(b1.internal_state, b2.internal_state);
        assert!(b1.genomes == b2.genomes);
    }
}

#[test]
fn source_and_sink_draws_cover_their_sets() {
    let mut rng = rng_from_seed(9);
    let mut saw_source = [false; 7];
    let mut saw_sink = [false; 6];
    for _ in 0..500 {
        let s = Source::random_new(&mut rng);
        saw_source[match s {
            Source::I0 => 0,
            Source::I1 => 1,
            Source::I2 => 2,
            Source::I3 => 3,
            Source::Random => 4,
            Source::Px => 5,
            Source::Py => 6,
        }] = true;
        let k = Sink::random_new(&mut rng);
        saw_sink[match k {
            Sink::I0 => 0,
            Sink::I1 => 1,
            Sink::I2 => 2,
            Sink::I3 => 3,
            Sink::Mx => 4,
            Sink::My => 5,
        }] = true;
    }
    assert!(saw_source.iter().all(|&v| v));
    assert!(saw_sink.iter().all(|&v| v));
}

#[test]
fn a_generation_never_mutates_genomes() {
    let mut sim = Simulator::random_new(10, 30, 1, 77);
    let before: Vec<Genomes> = sim.blobs.iter().map(|b| b.genomes).collect();
    sim.run_generation();
    assert_eq!(sim.blobs.len(), before.len());
    for (b, gs) in sim.blobs.iter().zip(before.iter()) {
        assert!(b.genomes == *gs);
    }
}

#[test]
fn source_from_index_follows_the_fixed_order() {
    assert_eq!(Source::from_index(0), Source::I0);
    assert_eq!(Source::from_index(1), Source::I1);
    assert_eq!(Source::from_index(2), Source::I2);
    assert_eq!(Source::from_index(3), Source::I3);
    assert_eq!(Source::from_index(4), Source::Random);
    assert_eq!(Source::from_index(5), Source::Px);
    assert_eq!(Source::from_index(6), Source::Py);
}

#[test]
fn sink_from_index_follows_the_fixed_order() {
    assert_eq!(Sink::from_index(0), Sink::I0);
    assert_eq!(Sink::from_index(1), Sink::I1);
    assert_eq!(Sink::from_index(2), Sink::I2);
    assert_eq!(Sink::from_index(3), Sink::I3);
    assert_eq!(Sink::from_index(4), Sink::Mx);
    assert_eq!(Sink::from_index(5), Sink::My);
}

#[test]
fn fresh_internal_state_has_non_negative_first_neuron() {
    let mut rng = rng_from_seed(13);
    for _ in 0..100 {
        let gs = inert_set();
        let b = Blob::random_pos(gs, &mut rng);
        assert!(b.internal_state.i0 >= 0);
    }
}
