//! Exercises each stage of the per-tick algorithm on small populations.

use demesim::config::{Config, Environment};
use demesim::fixed::{HALF, SCALE};
use demesim::population::{Individual, Patch, State};
use demesim::stages::{step, sum_weights, weighted_pick};

fn one_patch_state(loci: Vec<Vec<i64>>, env: i64, genome: usize) -> State {
    let individuals: Vec<Individual> = loci.into_iter().map(|l| Individual { loci: l }).collect();
    State {
        tick: 0,
        patches: vec![(Patch::new(individuals), env)],
        diploid: false,
        loci: genome,
    }
}

#[test]
fn step_test() {
    let e = vec![HALF; 8];
    let p: Vec<Patch> = (0..8)
        .map(|_| {
            Patch::new(vec![
                Individual {
                    loci: vec![100_000, 100_000, 100_000, 100_000],
                };
                4000 / 8
            ])
        })
        .collect();
    let mut state = State {
        tick: 0,
        patches: p.clone().into_iter().zip(e).collect(),
        diploid: false,
        loci: 4,
    };
    let config = Config {
        mutation_mu: 1_000,
        mutation_sigma: 10_000,
        mutation_step: 10_000,
        rec: 10_000,
        selection_sigma: 300_000,
        gamma: 0,
        m: SCALE,
        environment: Environment::Constant,
    };

    let _x = State::mutation(
        p,
        config.mutation_mu,
        config.mutation_sigma,
        config.mutation_step,
    );
    for _i in 0..100 {
        step(&mut state, &config);
    }
    assert_eq!(state.tick, 100);
    let total: usize = state.patches.iter().map(|(p, _)| p.individuals.len()).sum();
    assert_eq!(total, 4000);
}

#[test]
fn distr() {
    let weights = vec![0i64, 200, 400];
    let total = sum_weights(&weights);
    assert_eq!(total, 600);
    let mut counts = [0usize; 3];
    for _ in 0..1000 {
        counts[weighted_pick(&weights, total)] += 1;
    }
    assert_eq!(counts[0], 0);
    assert_eq!(counts[1] + counts[2], 1000);
}

#[test]
fn reproduction() {
    let state = one_patch_state(vec![vec![0]; 50], SCALE, 1);
    let x = state.reproduction(SCALE);
    assert_eq!(x.len(), 1);
    assert_eq!(x[0].len(), 50);
    for w in &x[0] {
        assert!(0 <= *w && *w <= SCALE);
    }
}

#[test]
fn adult_death() {
    let state = one_patch_state(vec![vec![0]; 10], SCALE, 1);
    let x = state.adult_death(300_000);
    assert_eq!(x.len(), 1);
    assert!(x[0] <= 10);
}

#[test]
fn density_regulation() {
    let state = one_patch_state(vec![vec![0], vec![SCALE]], SCALE, 1);
    let y = state.reproduction(500_000);
    let death = vec![10];
    let x = state.density_regulation(y, &death, false);
    assert_eq!(x.len(), 1);
    assert_eq!(x[0].individuals.len(), 10);
    for ind in &x[0].individuals {
        assert!(ind.loci == vec![0] || ind.loci == vec![SCALE]);
    }
}

#[test]
fn recombination() {
    let y = vec![Patch::new(vec![
        Individual {
            loci: vec![0, 1_000_000, 2_000_000, 3_000_000],
        },
        Individual {
            loci: vec![4_000_000, 5_000_000, 6_000_000, 7_000_000],
        },
    ])];
    let x = State::recombination(y, 500_000, 4);
    assert_eq!(x.len(), 1);
    assert_eq!(x[0].individuals.len(), 1);
    assert_eq!(x[0].individuals[0].loci.len(), 4);
}

#[test]
fn dispersal() {
    let y = vec![
        Patch::new(vec![
            Individual { loci: vec![0] },
            Individual { loci: vec![1_000_000] },
        ]),
        Patch::new(vec![
            Individual { loci: vec![2_000_000] },
            Individual { loci: vec![3_000_000] },
        ]),
    ];
    let x = State::dispersal(y, 750_000);
    assert_eq!(x.len(), 2);
    assert_eq!(x[0].individuals.len(), 2);
    assert_eq!(x[1].individuals.len(), 2);
}

#[test]
fn mutation() {
    let y = vec![Patch::new(vec![Individual {
        loci: vec![0, 0, 0, 0],
    }])];
    let x = State::mutation(y, 500_000, 100_000, 100_000);
    assert_eq!(x.len(), 1);
    assert_eq!(x[0].individuals.len(), 1);
    for locus in &x[0].individuals[0].loci {
        assert_eq!(locus % 100_000, 0);
    }
}
