//! Run configuration: the per-tick parameters, the initial-population
//! recipe, and the environment-dynamics selector.
//!
//! All rates are fixed-point `i64` values in `SCALE` units: probabilities
//! live in `[0, SCALE]`, sigma-like parameters in `[0, PARAM_LIMIT]`.

use vstd::prelude::*;

use crate::fixed::{GENOME_LIMIT, PARAM_LIMIT, PATCH_LIMIT, POP_LIMIT, SCALE};

verus! {

/// How the initial population's loci are drawn.
/// The `I` suffix draws independently per individual, the `P` suffix once
/// per patch, no suffix once for the whole population; the alternating
/// variants assign `+1.0 / -1.0` per locus with probability one half or
/// two thirds.
#[derive(Clone, Copy, Debug, PartialEq, Eq, Structural)]
pub enum InitialPopulation {
    UniformI,
    UniformP,
    Uniform,
    ConstantI,
    ConstantP,
    Constant,
    NormalI,
    NormalP,
    Normal,
    AlternatingHalf,
    AlternatingThird,
}

/// The per-tick update rule for each patch's environment scalar.
#[derive(Clone, Copy, Debug, PartialEq, Eq, Structural)]
pub enum Environment {
    Random,
    AlternatingHalf,
    AlternatingThird,
    Sine,
    RandomWalk,
    Constant,
    ConstantWithJumps,
}

/// The live parameters of a run; replaceable tick by tick.
#[derive(Clone, Copy, Debug, PartialEq, Eq, Structural)]
pub struct Config {
    /// Per-locus mutation probability.
    pub mutation_mu: i64,
    /// Standard deviation of a mutational effect.
    pub mutation_sigma: i64,
    /// Quantization step for mutational effects.
    pub mutation_step: i64,
    /// Per-individual recombination probability.
    pub rec: i64,
    /// Selection strength (standard deviation of the fitness kernel).
    pub selection_sigma: i64,
    /// Per-tick adult survival probability (generation overlap).
    pub gamma: i64,
    /// Dispersal probability.
    pub m: i64,
    /// Environment update rule.
    pub environment: Environment,
}

impl Config {
    /// Probabilities lie in `[0, SCALE]`, sigma-like parameters in
    /// `[0, PARAM_LIMIT]`.
    pub open spec fn wf(&self) -> bool {
        &&& 0 <= self.mutation_mu <= SCALE
        &&& 0 <= self.mutation_sigma <= PARAM_LIMIT
        &&& 0 <= self.mutation_step <= PARAM_LIMIT
        &&& 0 <= self.rec <= SCALE
        &&& 0 <= self.selection_sigma <= PARAM_LIMIT
        &&& 0 <= self.gamma <= SCALE
        &&& 0 <= self.m <= SCALE
    }
}

/// The immutable shape of a run, fixed before the first tick.
#[derive(Clone, Debug)]
pub struct InitConfig {
    /// Tick ceiling; `None` leaves the run unlimited.
    pub t_max: Option<u64>,
    /// Initial-population recipe.
    pub kind: InitialPopulation,
    /// Number of patches.
    pub patches: usize,
    /// Total number of individuals, split evenly over the patches.
    pub individuals: usize,
    /// Loci per haploid genome; doubled internally when diploid.
    pub loci: usize,
    /// Whether each individual carries two homologous copies.
    pub diploid: bool,
}

/// Why an `InitConfig` was rejected.
#[derive(Clone, Copy, Debug, PartialEq, Eq, Structural)]
pub enum InitError {
    /// The patch count was zero.
    NoPatches,
    /// The patch count exceeded `PATCH_LIMIT`.
    TooManyPatches,
    /// The individual count was not a multiple of the patch count.
    UnevenPatches,
    /// The individual count exceeded `POP_LIMIT`.
    TooManyIndividuals,
    /// The locus count was zero.
    NoLoci,
    /// The locus count (doubled when diploid) exceeded `GENOME_LIMIT`.
    TooManyLoci,
}

impl InitConfig {
    /// The genome length each individual will carry: `loci`, doubled for
    /// the two homologous copies when diploid.
    pub open spec fn genome_len(&self) -> int {
        if self.diploid {
            2 * self.loci
        } else {
            self.loci as int
        }
    }

    /// The configuration describes a buildable population.
    pub open spec fn valid(&self) -> bool {
        &&& 1 <= self.patches <= PATCH_LIMIT
        &&& self.individuals % self.patches == 0
        &&& self.individuals <= POP_LIMIT
        &&& 1 <= self.loci
        &&& self.genome_len() <= GENOME_LIMIT
    }

    /// The error `check` reports: the first clause of `valid` that fails.
    pub open spec fn first_error(&self) -> InitError {
        if self.patches == 0 {
            InitError::NoPatches
        } else if self.patches > PATCH_LIMIT {
            InitError::TooManyPatches
        } else if self.individuals % self.patches != 0 {
            InitError::UnevenPatches
        } else if self.individuals > POP_LIMIT {
            InitError::TooManyIndividuals
        } else if self.loci == 0 {
            InitError::NoLoci
        } else {
            InitError::TooManyLoci
        }
    }

    /// Validates the configuration, reporting the first failing clause.
    pub fn check(&self) -> (r: Result<(), InitError>)
        ensures
            r is Ok <==> self.valid(),
            r is Err ==> r->Err_0 == self.first_error(),
    {
        if self.patches == 0 {
            Err(InitError::NoPatches)
        } else if self.patches > PATCH_LIMIT {
            Err(InitError::TooManyPatches)
        } else if self.individuals % self.patches != 0 {
            Err(InitError::UnevenPatches)
        } else if self.individuals > POP_LIMIT {
            Err(InitError::TooManyIndividuals)
        } else if self.loci == 0 {
            Err(InitError::NoLoci)
        } else if (if self.diploid {
            self.loci > GENOME_LIMIT / 2
        } else {
            self.loci > GENOME_LIMIT
        }) {
            Err(InitError::TooManyLoci)
        } else {
            Ok(())
        }
    }
}

} // verus!
