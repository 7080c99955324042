//! Per-tick environment dynamics.
//!
//! Each patch carries one scalar optimum in `[-SCALE, SCALE]`. The
//! `Environment` variant chosen in the configuration selects how the whole
//! vector of optima is redrawn each tick: fresh uniform draws, alternating
//! binary values, a closed-form sine with a per-patch phase offset, a
//! clamped Gaussian random walk, a constant, or a constant with rare jumps.

use vstd::prelude::*;
use vstd::pervasive::VecAdditionalExecFns;

use crate::config::Environment;
use crate::fixed::{sine_spec, sine_wave, HALF, PATCH_LIMIT, SCALE, TWO_THIRDS};
use crate::population::{lemma_total_pop_congruent, Patch, State};
use crate::rng::{coin, normal, uniform_sym};

verus! {

/// Standard deviation of one random-walk step (`0.05`).
pub const ENV_NOISE_SD: i64 = 50_000;

/// Per-tick probability of a jump under `ConstantWithJumps` (`0.00001`).
pub const JUMP_CHANCE: i64 = 10;

/// Pace divisor of the sine oscillation: one unit of phase per
/// `SINE_SLOWDOWN` ticks.
pub const SINE_SLOWDOWN: u64 = 10_000;

/// Position within the sine period for patch `x` of `len` at `tick`:
/// `(x / len + tick) / SINE_SLOWDOWN`, in `SCALE` units of full turns,
/// reduced to one period.
pub open spec fn sine_pos_spec(x: int, len: int, tick: int) -> int {
    (((x * SCALE) / len + tick * SCALE) / (SINE_SLOWDOWN as int)) % (SCALE as int)
}

/// Evaluates `sine_pos_spec` on machine integers.
fn sine_position(x: usize, len: usize, tick: u64) -> (u: u64)
    requires
        1 <= len <= PATCH_LIMIT,
        x < len,
    ensures
        u == sine_pos_spec(x as int, len as int, tick as int),
        u < SCALE as u64,
{
    assert((x as u64) * (SCALE as u64) <= 10_000_000_000u64) by (nonlinear_arith)
        requires
            x < 10_000,
    ;
    let a: u64 = (x as u64) * (SCALE as u64) / (len as u64);
    let b: u128 = (a as u128) + (tick as u128) * (SCALE as u128);
    let c: u128 = b / (SINE_SLOWDOWN as u128);
    proof {
        vstd::arithmetic::div_mod::lemma_mod_division_less_than_divisor(
            c as int,
            SCALE as int,
        );
        vstd::arithmetic::div_mod::lemma_mod_bound(c as int, SCALE as int);
    }
    (c % (SCALE as u128)) as u64
}

impl Patch {
    /// A fresh uniform draw on `[-1, 1]` for each patch.
    pub fn random_env(len: usize) -> (r: Vec<i64>)
        ensures
            r@.len() == len,
            forall|i: int| 0 <= i < len ==> -SCALE <= #[trigger] r@[i] <= SCALE,
    {
        let mut out: Vec<i64> = Vec::new();
        let mut i: usize = 0;
        while i < len
            invariant
                i <= len,
                out@.len() == i,
                forall|k: int| 0 <= k < i ==> -SCALE <= #[trigger] out@[k] <= SCALE,
            decreases len - i,
        {
            out.push(uniform_sym(SCALE));
            i = i + 1;
        }
        out
    }

    /// `+0.5` with probability `chance`, else `-0.5`, for each patch.
    pub fn alternating_env(len: usize, chance: i64) -> (r: Vec<i64>)
        ensures
            r@.len() == len,
            forall|i: int| 0 <= i < len ==> r@[i] == HALF || #[trigger] r@[i] == -HALF,
    {
        let mut out: Vec<i64> = Vec::new();
        let mut i: usize = 0;
        while i < len
            invariant
                i <= len,
                out@.len() == i,
                forall|k: int| 0 <= k < i ==> out@[k] == HALF || #[trigger] out@[k] == -HALF,
            decreases len - i,
        {
            if coin(chance) {
                out.push(HALF);
            } else {
                out.push(-HALF);
            }
            i = i + 1;
        }
        out
    }

    /// The closed-form sine optimum for each patch: a slow oscillation with
    /// a per-patch phase offset.
    pub fn sine_env(len: usize, tick: u64) -> (r: Vec<i64>)
        requires
            1 <= len <= PATCH_LIMIT,
        ensures
            r@.len() == len,
            forall|i: int|
                0 <= i < len ==> #[trigger] r@[i] == sine_spec(
                    sine_pos_spec(i, len as int, tick as int),
                ),
            forall|i: int| 0 <= i < len ==> -SCALE <= #[trigger] r@[i] <= SCALE,
    {
        let mut out: Vec<i64> = Vec::new();
        let mut i: usize = 0;
        while i < len
            invariant
                1 <= len <= PATCH_LIMIT,
                i <= len,
                out@.len() == i,
                forall|k: int|
                    0 <= k < i ==> #[trigger] out@[k] == sine_spec(
                        sine_pos_spec(k, len as int, tick as int),
                    ),
                forall|k: int| 0 <= k < i ==> -SCALE <= #[trigger] out@[k] <= SCALE,
            decreases len - i,
        {
            out.push(sine_wave(sine_position(i, len, tick)));
            i = i + 1;
        }
        out
    }

    /// Adds zero-mean Gaussian noise to each previous optimum and clamps
    /// the result back to `[-1, 1]`; clamping can only shrink a step, so
    /// no optimum moves by more than six noise deviations in one tick.
    pub fn random_walk_env(p: Vec<i64>) -> (r: Vec<i64>)
        requires
            forall|i: int| 0 <= i < p@.len() ==> -SCALE <= #[trigger] p@[i] <= SCALE,
        ensures
            r@.len() == p@.len(),
            forall|i: int| 0 <= i < r@.len() ==> -SCALE <= #[trigger] r@[i] <= SCALE,
            forall|i: int|
                0 <= i < r@.len() ==> -(6 * ENV_NOISE_SD) <= (#[trigger] r@[i]) - p@[i] <= 6
                    * ENV_NOISE_SD,
    {
        let len = p.len();
        let mut out: Vec<i64> = Vec::new();
        let mut i: usize = 0;
        while i < len
            invariant
                i <= len,
                len == p@.len(),
                out@.len() == i,
                forall|k: int| 0 <= k < p@.len() ==> -SCALE <= #[trigger] p@[k] <= SCALE,
                forall|k: int| 0 <= k < i ==> -SCALE <= #[trigger] out@[k] <= SCALE,
                forall|k: int|
                    0 <= k < i ==> -(6 * ENV_NOISE_SD) <= (#[trigger] out@[k]) - p@[k] <= 6
                        * ENV_NOISE_SD,
            decreases len - i,
        {
            let stepped = p[i] + normal(ENV_NOISE_SD);
            let clamped = if stepped > SCALE {
                SCALE
            } else if stepped < -SCALE {
                -SCALE
            } else {
                stepped
            };
            out.push(clamped);
            i = i + 1;
        }
        out
    }

    /// Keeps each previous optimum, except that with a small probability it
    /// is replaced by a fresh uniform draw.
    pub fn constant_with_jumps_env(p: Vec<i64>) -> (r: Vec<i64>)
        requires
            forall|i: int| 0 <= i < p@.len() ==> -SCALE <= #[trigger] p@[i] <= SCALE,
        ensures
            r@.len() == p@.len(),
            forall|i: int| 0 <= i < r@.len() ==> -SCALE <= #[trigger] r@[i] <= SCALE,
    {
        let len = p.len();
        let mut out: Vec<i64> = Vec::new();
        let mut i: usize = 0;
        while i < len
            invariant
                i <= len,
                len == p@.len(),
                out@.len() == i,
                forall|k: int| 0 <= k < p@.len() ==> -SCALE <= #[trigger] p@[k] <= SCALE,
                forall|k: int| 0 <= k < i ==> -SCALE <= #[trigger] out@[k] <= SCALE,
            decreases len - i,
        {
            if coin(JUMP_CHANCE) {
                out.push(uniform_sym(SCALE));
            } else {
                out.push(p[i]);
            }
            i = i + 1;
        }
        out
    }
}

impl State {
    /// The current environment optima, in patch order.
    fn current_envs(&self) -> (r: Vec<i64>)
        ensures
            r@.len() == self.patches@.len(),
            forall|i: int| 0 <= i < r@.len() ==> #[trigger] r@[i] == self.patches@[i].1,
    {
        let n = self.patches.len();
        let mut out: Vec<i64> = Vec::new();
        let mut i: usize = 0;
        while i < n
            invariant
                i <= n,
                n == self.patches@.len(),
                out@.len() == i,
                forall|k: int| 0 <= k < i ==> #[trigger] out@[k] == self.patches@[k].1,
            decreases n - i,
        {
            out.push(self.patches[i].1);
            i = i + 1;
        }
        out
    }

    /// Redraws every patch's environment optimum according to `environment`.
    /// Populations are untouched; `Constant` leaves the state as it was;
    /// `Sine` yields the closed-form value for each patch; the alternating
    /// variants yield `+0.5` or `-0.5`; every variant keeps each optimum
    /// within `[-1, 1]`.
    pub fn environment(&mut self, environment: &Environment, tick: u64)
        requires
            old(self).wf(),
        ensures
            final(self).wf(),
            final(self).tick == old(self).tick,
            final(self).diploid == old(self).diploid,
            final(self).loci == old(self).loci,
            final(self).patches@.len() == old(self).patches@.len(),
            forall|p: int|
                0 <= p < old(self).patches@.len() ==> (#[trigger] final(self).patches@[p]).0
                    == old(self).patches@[p].0,
            environment is Constant ==> *final(self) == *old(self),
            environment is Sine ==> forall|p: int|
                0 <= p < final(self).patches@.len() ==> (#[trigger] final(self).patches@[p]).1
                    == sine_spec(sine_pos_spec(p, old(self).patches@.len() as int, tick as int)),
            (environment is AlternatingHalf || environment is AlternatingThird) ==> forall|p: int|
                0 <= p < final(self).patches@.len() ==> (#[trigger] final(self).patches@[p]).1
                    == HALF || final(self).patches@[p].1 == -HALF,
            environment is RandomWalk ==> forall|p: int|
                0 <= p < final(self).patches@.len() ==> -(6 * ENV_NOISE_SD) <= (#[trigger] final(self).patches@[p]).1 - old(self).patches@[p].1 <= 6 * ENV_NOISE_SD,
    {
        let n = self.patches.len();
        let new_envs: Vec<i64> = match environment {
            Environment::Random => Patch::random_env(n),
            Environment::AlternatingHalf => Patch::alternating_env(n, HALF),
            Environment::AlternatingThird => Patch::alternating_env(n, TWO_THIRDS),
            Environment::Sine => Patch::sine_env(n, tick),
            Environment::RandomWalk => {
                let cur = self.current_envs();
                Patch::random_walk_env(cur)
            },
            Environment::Constant => {
                return ;
            },
            Environment::ConstantWithJumps => {
                let cur = self.current_envs();
                Patch::constant_with_jumps_env(cur)
            },
        };
        let ghost entry = *self;
        let mut p: usize = 0;
        while p < n
            invariant
                p <= n,
                n == self.patches@.len(),
                n == entry.patches@.len(),
                new_envs@.len() == n,
                self.tick == entry.tick,
                self.diploid == entry.diploid,
                self.loci == entry.loci,
                forall|k: int|
                    0 <= k < p ==> (#[trigger] self.patches@[k]).0 == entry.patches@[k].0
                        && self.patches@[k].1 == new_envs@[k],
                forall|k: int| p <= k < n ==> #[trigger] self.patches@[k] == entry.patches@[k],
            decreases n - p,
        {
            let mut tmp = (Patch::new(Vec::new()), 0i64);
            self.patches.set_and_swap(p, &mut tmp);
            tmp.1 = new_envs[p];
            self.patches.set_and_swap(p, &mut tmp);
            p = p + 1;
        }
        proof {
            lemma_total_pop_congruent(self.patches@, entry.patches@);
        }
    }
}

} // verus!
