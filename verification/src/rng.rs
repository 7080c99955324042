//! Randomness for the simulator.
//!
//! All entropy enters through `random_u64`; every distribution the
//! algorithm needs (bounded draws, biased coins, symmetric uniforms, an
//! approximate normal) is derived from it in verified code, so each
//! derived sampler carries a proved bound on every outcome. Shuffling
//! whole vectors is delegated to the generator's own slice shuffle.

use vstd::prelude::*;

use rand::seq::SliceRandom;

use crate::fixed::{LOCUS_LIMIT, PARAM_LIMIT, SCALE};

verus! {

/// Relies on rand::random: one independent, uniformly distributed 64-bit
/// draw from the thread-local generator. Nothing can be promised of the
/// value itself, so the contract is empty.
#[verifier::external_body]
fn random_u64() -> u64 {
    rand::random()
}

/// Relies on rand::seq::SliceRandom::shuffle: the slice is permuted in
/// place, so the new contents are the old contents in some order.
#[verifier::external_body]
pub fn shuffle_vec<T>(v: &mut Vec<T>)
    ensures
        final(v)@.to_multiset() == old(v)@.to_multiset(),
        final(v)@.len() == old(v)@.len(),
{
    v.shuffle(&mut rand::thread_rng());
}

/// A draw strictly below `bound`.
pub fn gen_below(bound: u64) -> (r: u64)
    requires
        bound > 0,
    ensures
        r < bound,
{
    random_u64() % bound
}

/// A draw strictly below `bound`, usable as an index.
pub fn gen_index(bound: usize) -> (r: usize)
    requires
        bound > 0,
    ensures
        r < bound,
{
    gen_below(bound as u64) as usize
}

/// A biased coin that comes up true with probability `p` in `SCALE` units.
/// The certain outcomes are certain: never true at or below zero, always
/// true at or above `SCALE`.
pub fn coin(p: i64) -> (b: bool)
    ensures
        p <= 0 ==> !b,
        p >= SCALE ==> b,
{
    if p <= 0 {
        false
    } else if p >= SCALE {
        true
    } else {
        let slot = u64::MAX / (SCALE as u64);
        let pu = p as u64;
        assert(slot == 18_446_744_073_709u64);
        assert(pu < 1_000_000);
        assert(pu * slot <= 18_446_744_073_709_551_615u64) by (nonlinear_arith)
            requires
                pu < 1_000_000,
                slot == 18_446_744_073_709u64,
        ;
        random_u64() < pu * slot
    }
}

/// A uniform draw on `[-bound, bound]`.
pub fn uniform_sym(bound: i64) -> (r: i64)
    requires
        0 <= bound <= LOCUS_LIMIT,
    ensures
        -bound <= r <= bound,
{
    let x = gen_below(2 * (bound as u64) + 1);
    (x as i64) - bound
}

/// An approximately standard-normal draw in `SCALE` units: the centred sum
/// of twelve uniform draws on `[0, SCALE)`.
pub fn std_normal() -> (z: i64)
    ensures
        -6 * SCALE <= z <= 6 * SCALE,
{
    let mut sum: u64 = 0;
    let mut i: u64 = 0;
    while i < 12
        invariant
            i <= 12,
            sum <= i * 1_000_000,
        decreases 12 - i,
    {
        sum = sum + gen_below(SCALE as u64);
        i = i + 1;
    }
    (sum as i64) - 6 * SCALE
}

/// An approximately normal draw with standard deviation `sd` (in `SCALE`
/// units), bounded by six standard deviations in magnitude.
pub fn normal(sd: i64) -> (r: i64)
    requires
        0 <= sd <= PARAM_LIMIT,
    ensures
        -6 * sd <= r <= 6 * sd,
{
    let z = std_normal();
    let neg = z < 0;
    let m: u128 = (if neg {
        -z
    } else {
        z
    }) as u128;
    assert(m * (sd as u128) <= 6_000_000int * (sd as int)) by (nonlinear_arith)
        requires
            m <= 6_000_000,
            0 <= sd,
    ;
    let scaled = m * (sd as u128) / (SCALE as u128);
    proof {
        vstd::arithmetic::div_mod::lemma_div_is_ordered(
            m as int * (sd as int),
            6_000_000int * (sd as int),
            SCALE as int,
        );
        vstd::arithmetic::div_mod::lemma_div_multiples_vanish(6 * (sd as int), SCALE as int);
        assert(6_000_000int * (sd as int) == (SCALE as int) * (6 * (sd as int)))
            by (nonlinear_arith);
        vstd::arithmetic::div_mod::lemma_div_pos_is_pos(m as int * (sd as int), SCALE as int);
        assert(m as int * (sd as int) >= 0) by (nonlinear_arith)
            requires
                m >= 0,
                sd >= 0,
        ;
    }
    if neg {
        -(scaled as i64)
    } else {
        scaled as i64
    }
}

} // verus!
