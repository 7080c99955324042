//! Scenario checks for the simulator's global guarantees.

use demesim::config::{Config, Environment, InitConfig, InitialPopulation};
use demesim::fixed::SCALE;
use demesim::init::init;
use demesim::population::{Individual, Patch, State};
use demesim::protocol::{Action, ProtocolError, Query, Response, Session};
use demesim::stages::step;

fn quiet_config() -> Config {
    Config {
        mutation_mu: 0,
        mutation_sigma: 10_000,
        mutation_step: 10_000,
        rec: 0,
        selection_sigma: SCALE,
        gamma: SCALE,
        m: 0,
        environment: Environment::Constant,
    }
}

#[test]
fn dispersal_preserves_population_counts() {
    let before: Vec<Patch> = (0..4)
        .map(|p| {
            Patch::new(
                (0..7)
                    .map(|i| Individual {
                        loci: vec![(p * 10 + i) * 1_000],
                    })
                    .collect(),
            )
        })
        .collect();
    let before_total: usize = before.iter().map(|p| p.individuals.len()).sum();
    let mut before_loci: Vec<Vec<i64>> = before
        .iter()
        .flat_map(|p| p.individuals.iter().map(|i| i.loci.clone()))
        .collect();
    let after = State::dispersal(before, 900_000);
    let after_total: usize = after.iter().map(|p| p.individuals.len()).sum();
    assert_eq!(before_total, after_total);
    for patch in &after {
        assert_eq!(patch.individuals.len(), 7);
    }
    // A permutation, not a resample: the same locus vectors come out.
    let mut after_loci: Vec<Vec<i64>> = after
        .iter()
        .flat_map(|p| p.individuals.iter().map(|i| i.loci.clone()))
        .collect();
    before_loci.sort();
    after_loci.sort();
    assert_eq!(before_loci, after_loci);
}

#[test]
fn locus_count_uniform_over_run() {
    let cfg = InitConfig {
        t_max: None,
        kind: InitialPopulation::NormalI,
        patches: 2,
        individuals: 20,
        loci: 3,
        diploid: true,
    };
    let mut state = init(cfg, Environment::Random).unwrap();
    assert_eq!(state.loci, 6);
    let config = Config {
        mutation_mu: 200_000,
        mutation_sigma: 50_000,
        mutation_step: 10_000,
        rec: 300_000,
        selection_sigma: SCALE,
        gamma: 500_000,
        m: 300_000,
        environment: Environment::Random,
    };
    for _ in 0..5 {
        step(&mut state, &config);
        for (patch, _) in &state.patches {
            for ind in &patch.individuals {
                assert_eq!(ind.loci.len(), 6);
            }
        }
    }
}

#[test]
fn zero_fitness_falls_back_to_uniform() {
    // Three individuals far from the optimum under a tiny selection
    // width: every weight is zero, yet sampling must still work.
    let state = State {
        tick: 0,
        patches: vec![(
            Patch::new(vec![
                Individual {
                    loci: vec![1_000_000_000],
                };
                3
            ]),
            -SCALE,
        )],
        diploid: false,
        loci: 1,
    };
    let weights = state.reproduction(1);
    assert_eq!(weights[0], vec![0, 0, 0]);
    let death = vec![2];
    let ng = state.density_regulation(weights, &death, false);
    assert_eq!(ng[0].individuals.len(), 2);
    for ind in &ng[0].individuals {
        assert_eq!(ind.loci, vec![1_000_000_000]);
    }
}

#[test]
fn mutation_changes_are_step_multiples() {
    let y = vec![Patch::new(vec![Individual {
        loci: vec![123_456; 20],
    }])];
    let x = State::mutation(y, SCALE, 300_000, 100_000);
    let mut changed = 0;
    for locus in &x[0].individuals[0].loci {
        let diff = locus - 123_456;
        if diff != 0 {
            changed += 1;
        }
        assert_eq!(diff % 100_000, 0);
    }
    let _ = changed;
}

#[test]
fn no_recombination_keeps_homologs_whole() {
    for _ in 0..50 {
        let y = vec![Patch::new(vec![
            Individual {
                loci: vec![0, 1_000_000, 2_000_000, 3_000_000],
            },
            Individual {
                loci: vec![4_000_000, 5_000_000, 6_000_000, 7_000_000],
            },
        ])];
        let x = State::recombination(y, 0, 4);
        let off = &x[0].individuals[0].loci;
        let first = &off[0..2];
        let second = &off[2..4];
        assert!(first == [0, 1_000_000] || first == [2_000_000, 3_000_000]);
        assert!(second == [4_000_000, 5_000_000] || second == [6_000_000, 7_000_000]);
    }
}

#[test]
fn recombination_drops_odd_trailing_candidate() {
    let y = vec![Patch::new(vec![
        Individual {
            loci: vec![0, 1_000_000, 2_000_000, 3_000_000],
        },
        Individual {
            loci: vec![4_000_000, 5_000_000, 6_000_000, 7_000_000],
        },
        Individual {
            loci: vec![8_000_000, 8_000_000, 8_000_000, 8_000_000],
        },
    ])];
    let x = State::recombination(y, 500_000, 4);
    assert_eq!(x[0].individuals.len(), 1);
    assert_eq!(x[0].individuals[0].loci.len(), 4);
}

#[test]
fn commit_keeps_survivors_and_appends_newcomers() {
    let mut state = State {
        tick: 0,
        patches: vec![(
            Patch::new(vec![
                Individual { loci: vec![1_000] },
                Individual { loci: vec![2_000] },
                Individual { loci: vec![3_000] },
            ]),
            0,
        )],
        diploid: false,
        loci: 1,
    };
    let newcomers = vec![Patch::new(vec![Individual { loci: vec![99_000] }])];
    state.update(newcomers, vec![1]);
    assert_eq!(state.tick, 1);
    let inds = &state.patches[0].0.individuals;
    assert_eq!(inds.len(), 3);
    // The newcomer stands at the end; the two survivors come from the old
    // patch, each at most once.
    assert_eq!(inds[2].loci, vec![99_000]);
    let mut survivors: Vec<i64> = vec![inds[0].loci[0], inds[1].loci[0]];
    survivors.sort();
    assert!(
        survivors == vec![1_000, 2_000] || survivors == vec![1_000, 3_000]
            || survivors == vec![2_000, 3_000]
    );
}

#[test]
fn constant_run_keeps_fifty_individuals() {
    let cfg = InitConfig {
        t_max: None,
        kind: InitialPopulation::ConstantI,
        patches: 1,
        individuals: 50,
        loci: 1,
        diploid: false,
    };
    let mut state = init(cfg, Environment::Constant).unwrap();
    let config = quiet_config();
    for _ in 0..10 {
        step(&mut state, &config);
    }
    assert_eq!(state.tick, 10);
    assert_eq!(state.patches.len(), 1);
    assert_eq!(state.patches[0].0.individuals.len(), 50);
}

#[test]
fn protocol_sequencing() {
    let mut session = Session::new();

    // Update before any Start is refused.
    let a = session.handle_query(Query::Update(quiet_config()));
    assert!(matches!(
        a,
        Action::Reply(Response::Error(ProtocolError::NotRunning))
    ));
    assert!(!session.running);

    // Pause and Resume before any Start are refused too.
    assert!(matches!(
        session.handle_query(Query::Pause),
        Action::Reply(Response::Error(ProtocolError::NotRunning))
    ));
    assert!(matches!(
        session.handle_query(Query::Resume),
        Action::Reply(Response::Error(ProtocolError::NotRunning))
    ));

    // The first Start spawns; a second Start without a Stop is refused.
    assert!(matches!(
        session.handle_query(Query::Start(quiet_config())),
        Action::Spawn(_)
    ));
    assert!(session.running);
    assert!(matches!(
        session.handle_query(Query::Start(quiet_config())),
        Action::Reply(Response::Error(ProtocolError::AlreadyRunning))
    ));

    // While running, Update is forwarded.
    assert!(matches!(
        session.handle_query(Query::Update(quiet_config())),
        Action::Notify(_)
    ));

    // Stop always succeeds and is idempotent.
    assert!(matches!(
        session.handle_query(Query::Stop),
        Action::Reply(Response::Stopped)
    ));
    assert!(!session.running);
    assert!(matches!(
        session.handle_query(Query::Stop),
        Action::Reply(Response::Stopped)
    ));
}
