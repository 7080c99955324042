//! Initializer validation and shapes, environment dynamics, snapshots,
//! and the simulation thread's decision loop.

use demesim::config::{Config, Environment, InitConfig, InitError, InitialPopulation};
use demesim::environment::ENV_NOISE_SD;
use demesim::fixed::{HALF, SCALE};
use demesim::graph::extract_graph_data;
use demesim::init::init;
use demesim::population::{Individual, Patch, State};
use demesim::protocol::{Control, Notification, SimSession, TickOutcome};
use demesim::suggest::make_suggestions;

fn base_init() -> InitConfig {
    InitConfig {
        t_max: None,
        kind: InitialPopulation::ConstantI,
        patches: 2,
        individuals: 10,
        loci: 2,
        diploid: false,
    }
}

fn base_config() -> Config {
    Config {
        mutation_mu: 10_000,
        mutation_sigma: 10_000,
        mutation_step: 10_000,
        rec: 10_000,
        selection_sigma: SCALE,
        gamma: 500_000,
        m: 100_000,
        environment: Environment::Constant,
    }
}

#[test]
fn init_rejects_bad_configurations() {
    let mut c = base_init();
    c.patches = 0;
    assert_eq!(init(c, Environment::Constant).unwrap_err(), InitError::NoPatches);

    let mut c = base_init();
    c.patches = 10_001;
    c.individuals = 10_001;
    assert_eq!(init(c, Environment::Constant).unwrap_err(), InitError::TooManyPatches);

    let mut c = base_init();
    c.patches = 3;
    assert_eq!(init(c, Environment::Constant).unwrap_err(), InitError::UnevenPatches);

    let mut c = base_init();
    c.patches = 1;
    c.individuals = 100_000_001;
    assert_eq!(init(c, Environment::Constant).unwrap_err(), InitError::TooManyIndividuals);

    let mut c = base_init();
    c.loci = 0;
    assert_eq!(init(c, Environment::Constant).unwrap_err(), InitError::NoLoci);

    let mut c = base_init();
    c.loci = 1_001;
    c.diploid = true;
    assert_eq!(init(c, Environment::Constant).unwrap_err(), InitError::TooManyLoci);

    let mut c = base_init();
    c.loci = 2_001;
    assert_eq!(init(c, Environment::Constant).unwrap_err(), InitError::TooManyLoci);
}

#[test]
fn init_builds_expected_shape() {
    let state = init(base_init(), Environment::Random).unwrap();
    assert_eq!(state.tick, 0);
    assert_eq!(state.patches.len(), 2);
    assert_eq!(state.loci, 2);
    assert!(!state.diploid);
    for (patch, env) in &state.patches {
        assert_eq!(patch.individuals.len(), 5);
        assert!(-SCALE <= *env && *env <= SCALE);
        for ind in &patch.individuals {
            assert_eq!(ind.loci.len(), 2);
        }
    }
}

#[test]
fn init_doubles_loci_when_diploid() {
    let mut c = base_init();
    c.diploid = true;
    c.kind = InitialPopulation::UniformI;
    let state = init(c, Environment::Constant).unwrap();
    assert_eq!(state.loci, 4);
    for (patch, _) in &state.patches {
        for ind in &patch.individuals {
            assert_eq!(ind.loci.len(), 4);
        }
    }
}

#[test]
fn per_population_kinds_share_one_genome() {
    let mut c = base_init();
    c.kind = InitialPopulation::Uniform;
    let state = init(c, Environment::Constant).unwrap();
    let proto = state.patches[0].0.individuals[0].loci.clone();
    for (patch, _) in &state.patches {
        for ind in &patch.individuals {
            assert_eq!(ind.loci, proto);
        }
    }
}

#[test]
fn per_patch_kinds_share_within_each_patch() {
    let mut c = base_init();
    c.kind = InitialPopulation::NormalP;
    let state = init(c, Environment::Constant).unwrap();
    for (patch, _) in &state.patches {
        let proto = patch.individuals[0].loci.clone();
        for ind in &patch.individuals {
            assert_eq!(ind.loci, proto);
        }
    }
}

#[test]
fn alternating_kind_draws_unit_loci() {
    let mut c = base_init();
    c.kind = InitialPopulation::AlternatingThird;
    let state = init(c, Environment::Constant).unwrap();
    for (patch, _) in &state.patches {
        for ind in &patch.individuals {
            for locus in &ind.loci {
                assert!(*locus == SCALE || *locus == -SCALE);
            }
        }
    }
}

#[test]
fn constant_kinds_repeat_one_value() {
    // Per individual: every locus within an individual matches its first,
    // while individuals may differ.
    let mut c = base_init();
    c.loci = 4;
    let state = init(c, Environment::Constant).unwrap();
    for (patch, _) in &state.patches {
        for ind in &patch.individuals {
            for locus in &ind.loci {
                assert_eq!(*locus, ind.loci[0]);
            }
        }
    }

    // Per patch: one value over the whole patch.
    let mut c = base_init();
    c.kind = InitialPopulation::ConstantP;
    let state = init(c, Environment::Constant).unwrap();
    for (patch, _) in &state.patches {
        let v = patch.individuals[0].loci[0];
        for ind in &patch.individuals {
            for locus in &ind.loci {
                assert_eq!(*locus, v);
            }
        }
    }

    // Per population: one value everywhere.
    let mut c = base_init();
    c.kind = InitialPopulation::Constant;
    let state = init(c, Environment::Constant).unwrap();
    let v = state.patches[0].0.individuals[0].loci[0];
    for (patch, _) in &state.patches {
        for ind in &patch.individuals {
            for locus in &ind.loci {
                assert_eq!(*locus, v);
            }
        }
    }
}

#[test]
fn init_environment_follows_variant() {
    let state = init(base_init(), Environment::AlternatingThird).unwrap();
    for (_, env) in &state.patches {
        assert!(*env == HALF || *env == -HALF);
    }
    let state = init(base_init(), Environment::Sine).unwrap();
    // Patch 0 sits at phase zero of the oscillation at tick zero.
    assert_eq!(state.patches[0].1, 0);
}

#[test]
fn random_walk_steps_are_bounded() {
    let mut state = init(base_init(), Environment::Constant).unwrap();
    let before: Vec<i64> = state.patches.iter().map(|(_, e)| *e).collect();
    state.environment(&Environment::RandomWalk, 0);
    for (i, (_, env)) in state.patches.iter().enumerate() {
        assert!((env - before[i]).abs() <= 6 * ENV_NOISE_SD);
        assert!(-SCALE <= *env && *env <= SCALE);
    }
}

#[test]
fn small_population_sample_has_no_repeats() {
    // With the whole population below the sample cap, drawing without
    // replacement must return exactly the population's pairs, rearranged.
    let inds: Vec<Individual> = (0..40).map(|i| Individual { loci: vec![i * 1_000] }).collect();
    let patches = vec![(Patch::new(inds), 0)];
    let g = extract_graph_data(&patches).unwrap();
    assert_eq!(g.phenotype_sample.len(), 40);
    let mut got: Vec<i64> = g.phenotype_sample.iter().map(|(_, ph)| *ph).collect();
    got.sort();
    let want: Vec<i64> = (0..40).map(|i| i * 1_000).collect();
    assert_eq!(got, want);
}

#[test]
fn constant_environment_is_untouched() {
    let mut state = init(base_init(), Environment::Constant).unwrap();
    let before: Vec<i64> = state.patches.iter().map(|(_, e)| *e).collect();
    state.environment(&Environment::Constant, 7);
    let after: Vec<i64> = state.patches.iter().map(|(_, e)| *e).collect();
    assert_eq!(before, after);
}

#[test]
fn alternating_environment_draws_half_values() {
    let mut state = init(base_init(), Environment::Constant).unwrap();
    state.environment(&Environment::AlternatingHalf, 0);
    for (_, env) in &state.patches {
        assert!(*env == HALF || *env == -HALF);
    }
}

#[test]
fn sine_environment_starts_at_zero_phase() {
    let mut state = init(base_init(), Environment::Constant).unwrap();
    state.environment(&Environment::Sine, 0);
    // Patch 0 at tick 0 sits at phase 0 of the oscillation.
    assert_eq!(state.patches[0].1, 0);
}

#[test]
fn graph_data_exact_statistics() {
    let patches = vec![(
        Patch::new(vec![
            Individual { loci: vec![0] },
            Individual { loci: vec![2_000_000] },
        ]),
        0,
    )];
    let g = extract_graph_data(&patches).unwrap();
    assert_eq!(g.population, 2);
    // Mean 1.0; each squared deviation is 1.0, so the variance is 1.0.
    assert_eq!(g.phenotype_variance, 1_000_000);
    assert_eq!(g.phenotype_distance, 2_000_000);
    assert_eq!(g.phenotype_sample.len(), 2);
    for (p, phen) in &g.phenotype_sample {
        assert_eq!(*p, 0);
        assert!(*phen == 0 || *phen == 2_000_000);
    }
}

#[test]
fn graph_data_empty_population_is_fatal() {
    let patches: Vec<(Patch, i64)> = vec![(Patch::new(Vec::new()), 0)];
    assert!(extract_graph_data(&patches).is_none());
}

#[test]
fn graph_data_sample_is_bounded() {
    let inds: Vec<Individual> = (0..250).map(|_| Individual { loci: vec![5_000] }).collect();
    let patches = vec![(Patch::new(inds), 0)];
    let g = extract_graph_data(&patches).unwrap();
    assert_eq!(g.population, 250);
    assert_eq!(g.phenotype_sample.len(), 100);
}

#[test]
fn sim_tick_decision_table() {
    let state = init(base_init(), Environment::Constant).unwrap();
    let mut sess = SimSession::new(state, base_config(), Some(3));

    // A hangup stops the loop at once.
    assert_eq!(sess.sim_tick(Control::Disconnected), TickOutcome::Stopped);

    // Pause makes the loop sleep; Resume lets it step again.
    assert_eq!(
        sess.sim_tick(Control::Message(Notification::Pause)),
        TickOutcome::Slept
    );
    assert_eq!(sess.sim_tick(Control::Empty), TickOutcome::Slept);
    assert_eq!(
        sess.sim_tick(Control::Message(Notification::Resume)),
        TickOutcome::Stepped
    );
    assert_eq!(sess.state.tick, 1);

    // An update replaces the configuration before the tick runs.
    let mut updated = base_config();
    updated.gamma = SCALE;
    assert_eq!(
        sess.sim_tick(Control::Message(Notification::Update(updated))),
        TickOutcome::Stepped
    );
    assert_eq!(sess.config.gamma, SCALE);

    // Past the ceiling the run reports completion and stops stepping.
    assert_eq!(sess.sim_tick(Control::Empty), TickOutcome::Stepped);
    assert_eq!(sess.sim_tick(Control::Empty), TickOutcome::Stepped);
    assert_eq!(sess.state.tick, 4);
    assert_eq!(sess.sim_tick(Control::Empty), TickOutcome::Finished);
    assert_eq!(sess.state.tick, 4);
}

#[test]
fn suggestions_number_the_names() {
    let r = make_suggestions(&["uniform", "constant", "normal"]);
    assert_eq!(r.len(), 3);
    assert_eq!(r[0].name, "uniform");
    assert_eq!(r[0].value, 0);
    assert_eq!(r[1].name, "constant");
    assert_eq!(r[1].value, 1);
    assert_eq!(r[2].name, "normal");
    assert_eq!(r[2].value, 2);
}
