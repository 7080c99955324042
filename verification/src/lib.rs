//! A forward-time, individual-based population-genetics simulator.
//!
//! A population of haploid or diploid individuals, split over spatial
//! patches with local environments, evolves tick by tick under selection,
//! density-dependent reproduction, recombination, dispersal and mutation.
//! All real-valued quantities (locus values, environments, rates) are held
//! in a fixed-point representation so that every stage of the per-tick
//! algorithm carries a machine-checked contract.

pub mod config;
pub mod environment;
pub mod fixed;
pub mod graph;
pub mod init;
pub mod laws;
pub mod population;
pub mod protocol;
pub mod rng;
pub mod stages;
pub mod suggest;

pub use fixed::SCALE;
