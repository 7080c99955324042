//! Fixed-point arithmetic for the simulator.
//!
//! Every real-valued quantity of the model (locus values, environments,
//! probabilities, selection strength) is an `i64` counted in units of
//! `1 / SCALE`, so `SCALE` stands for `1.0` and `SCALE / 2` for `0.5`.
//! Probabilities live in `[0, SCALE]`; locus values are kept within
//! `[-LOCUS_LIMIT, LOCUS_LIMIT]`.

use vstd::prelude::*;

verus! {

/// Number of fixed-point units per `1.0`.
pub const SCALE: i64 = 1_000_000;

/// Largest magnitude a single locus value may take (`1_000_000.0`).
pub const LOCUS_LIMIT: i64 = 1_000_000_000_000;

/// Largest value accepted for sigma-like parameters (`1_000_000.0`).
pub const PARAM_LIMIT: i64 = 1_000_000_000_000;

/// Largest number of loci a genome may carry (both homologs included).
pub const GENOME_LIMIT: usize = 2_000;

/// Largest total number of individuals a run may hold.
pub const POP_LIMIT: usize = 100_000_000;

/// Largest number of patches a run may hold.
pub const PATCH_LIMIT: usize = 10_000;

/// Exponents at or above this value (`40.0`) make `exp_neg` underflow to 0.
pub const EXP_CUTOFF: i64 = 40_000_000;

/// Fixed-point approximation of `exp(-q)` for `q >= 0`, scaled by `SCALE`:
/// the reciprocal of the third-order Taylor expansion of `exp(q)`, with the
/// intermediate terms truncated exactly as the executable code truncates them,
/// and 0 beyond `EXP_CUTOFF`.
pub open spec fn exp_neg_spec(q: int) -> int {
    if q >= EXP_CUTOFF {
        0
    } else {
        let t2 = (q * q) / (2 * SCALE);
        let t3 = (t2 * q) / (3 * SCALE);
        (SCALE * SCALE) / (SCALE + q + t2 + t3)
    }
}

proof fn lemma_div_bounds(a: int, b: int)
    requires
        0 <= a,
        0 < b,
    ensures
        0 <= a / b <= a,
{
    vstd::arithmetic::div_mod::lemma_div_nonincreasing(a, b);
    vstd::arithmetic::div_mod::lemma_div_pos_is_pos(a, b);
}

/// `exp_neg_spec` always lands in `[0, SCALE]`.
pub proof fn lemma_exp_neg_bounds(q: int)
    requires
        q >= 0,
    ensures
        0 <= exp_neg_spec(q) <= SCALE,
{
    if q < EXP_CUTOFF {
        let t2 = (q * q) / (2 * SCALE);
        let t3 = (t2 * q) / (3 * SCALE);
        assert(q * q >= 0) by (nonlinear_arith);
        lemma_div_bounds(q * q, 2 * SCALE);
        assert(t2 * q >= 0) by (nonlinear_arith)
            requires
                t2 >= 0,
                q >= 0,
        ;
        lemma_div_bounds(t2 * q, 3 * SCALE);
        let denom = SCALE + q + t2 + t3;
        assert(SCALE * SCALE >= 0) by (nonlinear_arith);
        lemma_div_bounds(SCALE * SCALE, denom);
        vstd::arithmetic::div_mod::lemma_div_is_ordered_by_denominator(
            SCALE * SCALE,
            SCALE as int,
            denom,
        );
        assert((SCALE * SCALE) / (SCALE as int) == SCALE) by (nonlinear_arith);
    }
}

/// Evaluates `exp_neg_spec` on machine integers.
pub fn exp_neg(q: i64) -> (r: i64)
    requires
        q >= 0,
    ensures
        r == exp_neg_spec(q as int),
        0 <= r <= SCALE,
{
    proof {
        lemma_exp_neg_bounds(q as int);
    }
    if q >= EXP_CUTOFF {
        return 0;
    }
    let qu = q as u64;
    assert(qu * qu < 0x8000_0000_0000_0000u64) by (nonlinear_arith)
        requires
            qu < 40_000_000,
    ;
    let t2 = (qu * qu) / (2 * SCALE as u64);
    assert(t2 <= 800_000_000) by {
        assert(qu * qu <= 1_600_000_000_000_000) by (nonlinear_arith)
            requires
                qu < 40_000_000,
        ;
        vstd::arithmetic::div_mod::lemma_div_is_ordered(
            qu * qu,
            1_600_000_000_000_000,
            2 * SCALE as int,
        );
    }
    assert(t2 * qu <= 800_000_000 * 40_000_000) by (nonlinear_arith)
        requires
            t2 <= 800_000_000,
            qu < 40_000_000,
    ;
    let t3 = (t2 * qu) / (3 * SCALE as u64);
    assert(t3 <= 32_000_000_000_000_000int / (3 * SCALE as int)) by {
        vstd::arithmetic::div_mod::lemma_div_is_ordered(
            t2 * qu,
            32_000_000_000_000_000,
            3 * SCALE as int,
        );
    }
    let denom = SCALE as u64 + qu + t2 + t3;
    let r = (SCALE as u64 * SCALE as u64) / denom;
    r as i64
}

/// Largest magnitude a phenotype (sum of at most `GENOME_LIMIT` loci of
/// magnitude at most `LOCUS_LIMIT`) may take.
pub const PHEN_LIMIT: i64 = 2_000_000_000_000_000;

/// Fixed-point Gaussian fitness kernel `exp(-d^2 / (2 sigma^2))`, scaled by
/// `SCALE`. A vanishing `sigma` is read as the limit: full weight at `d == 0`
/// and none elsewhere.
pub open spec fn gauss_weight_spec(d: int, sigma: int) -> int {
    if sigma == 0 {
        if d == 0 {
            SCALE as int
        } else {
            0
        }
    } else {
        exp_neg_spec((d * d * SCALE) / (2 * sigma * sigma))
    }
}

/// Evaluates `gauss_weight_spec` on machine integers.
pub fn gauss_weight(d: i64, sigma: i64) -> (r: i64)
    requires
        -(PHEN_LIMIT + SCALE) <= d <= PHEN_LIMIT + SCALE,
        0 <= sigma <= PARAM_LIMIT,
    ensures
        r == gauss_weight_spec(d as int, sigma as int),
        0 <= r <= SCALE,
{
    if sigma == 0 {
        if d == 0 {
            SCALE
        } else {
            0
        }
    } else {
        let m: u128 = (if d < 0 {
            -d
        } else {
            d
        }) as u128;
        let s: u128 = sigma as u128;
        assert(m * m == d * d) by (nonlinear_arith)
            requires
                m == (if d < 0 {
                    -(d as int)
                } else {
                    d as int
                }),
        ;
        assert(m * m <= 2_001_000_000_000_000int * 2_001_000_000_000_000int) by (nonlinear_arith)
            requires
                m <= 2_001_000_000_000_000,
        ;
        assert(m * m * (SCALE as u128) <= 2_001_000_000_000_000int * 2_001_000_000_000_000int
            * 1_000_000int) by (nonlinear_arith)
            requires
                m * m <= 2_001_000_000_000_000int * 2_001_000_000_000_000int,
        ;
        assert(s * s <= 1_000_000_000_000_000_000_000_000int) by (nonlinear_arith)
            requires
                s <= 1_000_000_000_000,
        ;
        assert(2 * (s * s) > 0) by (nonlinear_arith)
            requires
                s >= 1,
        ;
        let q: u128 = m * m * (SCALE as u128) / (2 * (s * s));
        proof {
            assert(2 * (s * s) == 2 * (sigma as int) * (sigma as int)) by (nonlinear_arith)
                requires
                    s == sigma as int,
            ;
            assert(q == (d * d * SCALE) / (2 * (sigma as int) * (sigma as int)));
            lemma_exp_neg_bounds(q as int);
        }
        if q >= EXP_CUTOFF as u128 {
            0
        } else {
            exp_neg(q as i64)
        }
    }
}

/// Fixed-point units for `0.5`.
pub const HALF: i64 = 500_000;

/// Fixed-point units for a probability of two thirds, rounded to the
/// nearest unit.
pub const TWO_THIRDS: i64 = 666_667;

/// Fixed-point power `(a / SCALE)^n`, scaled by `SCALE`, with the quotient
/// truncated after every multiplication exactly as the executable code
/// truncates it.
pub open spec fn fp_pow_spec(a: int, n: nat) -> int
    decreases n,
{
    if n == 0 {
        SCALE as int
    } else {
        (a * fp_pow_spec(a, (n - 1) as nat)) / (SCALE as int)
    }
}

/// `fp_pow_spec` maps `[0, SCALE]` into `[0, SCALE]`.
pub proof fn lemma_fp_pow_bounds(a: int, n: nat)
    requires
        0 <= a <= SCALE,
    ensures
        0 <= fp_pow_spec(a, n) <= SCALE,
    decreases n,
{
    if n > 0 {
        lemma_fp_pow_bounds(a, (n - 1) as nat);
        let p = fp_pow_spec(a, (n - 1) as nat);
        assert(0 <= a * p <= SCALE * SCALE) by (nonlinear_arith)
            requires
                0 <= a <= SCALE,
                0 <= p <= SCALE,
        ;
        lemma_div_bounds(a * p, SCALE as int);
        vstd::arithmetic::div_mod::lemma_div_is_ordered(a * p, SCALE * SCALE, SCALE as int);
        assert((SCALE * SCALE) / (SCALE as int) == SCALE) by (nonlinear_arith);
    }
}

/// A proper fraction can only shrink under `fp_pow_spec`.
pub proof fn lemma_fp_pow_contracts(a: int, n: nat)
    requires
        0 <= a <= SCALE,
        n >= 1,
    ensures
        fp_pow_spec(a, n) <= a,
    decreases n,
{
    let p = fp_pow_spec(a, (n - 1) as nat);
    lemma_fp_pow_bounds(a, (n - 1) as nat);
    assert(a * p <= SCALE * a) by (nonlinear_arith)
        requires
            0 <= a,
            p <= SCALE,
    ;
    vstd::arithmetic::div_mod::lemma_div_is_ordered(a * p, SCALE * a, SCALE as int);
    vstd::arithmetic::div_mod::lemma_div_multiples_vanish(a, SCALE as int);
}

/// A full fraction stays full under `fp_pow_spec`.
pub proof fn lemma_fp_pow_full(n: nat)
    ensures
        fp_pow_spec(SCALE as int, n) == SCALE,
    decreases n,
{
    if n > 0 {
        lemma_fp_pow_full((n - 1) as nat);
        vstd::arithmetic::div_mod::lemma_div_multiples_vanish(SCALE as int, SCALE as int);
    }
}

/// Evaluates `fp_pow_spec` on machine integers.
pub fn fp_pow(a: u64, n: u64) -> (r: u64)
    requires
        a <= SCALE as u64,
    ensures
        r == fp_pow_spec(a as int, n as nat),
        r <= SCALE as u64,
{
    let mut acc: u64 = SCALE as u64;
    let mut i: u64 = 0;
    while i < n
        invariant
            a <= SCALE as u64,
            i <= n,
            acc == fp_pow_spec(a as int, i as nat),
            acc <= SCALE as u64,
        decreases n - i,
    {
        assert(a * acc <= SCALE * SCALE) by (nonlinear_arith)
            requires
                a <= SCALE as u64,
                acc <= SCALE as u64,
        ;
        proof {
            lemma_div_bounds(a as int * acc as int, SCALE as int);
            vstd::arithmetic::div_mod::lemma_div_is_ordered(
                a as int * acc as int,
                SCALE * SCALE,
                SCALE as int,
            );
            assert((SCALE * SCALE) / (SCALE as int) == SCALE) by (nonlinear_arith);
        }
        acc = a * acc / (SCALE as u64);
        i = i + 1;
    }
    acc
}

/// Per-locus crossover probability derived from the requested total
/// recombination probability `rec` over a gamete of `k` loci: the largest
/// probability `r` whose chance of no crossover at any of the `k - 1`
/// junctions, `fp_pow_spec(SCALE - r, k - 1)`, still reaches `SCALE - rec`.
/// A single-locus gamete has no junction, so `k == 1` yields zero.
pub fn crossover_rate(rec: i64, k: usize) -> (r: i64)
    requires
        0 <= rec <= SCALE,
        k >= 1,
    ensures
        0 <= r <= SCALE,
        k == 1 ==> r == 0,
        rec == 0 ==> r == 0,
        rec == SCALE && k >= 2 ==> r == SCALE,
        k >= 2 ==> fp_pow_spec(SCALE - r, (k - 1) as nat) >= SCALE - rec,
        k >= 2 && r < SCALE ==> fp_pow_spec(SCALE - r - 1, (k - 1) as nat) < SCALE - rec,
{
    if k == 1 {
        return 0;
    }
    if rec == 0 {
        proof {
            lemma_fp_pow_full((k - 1) as nat);
            lemma_fp_pow_contracts(SCALE - 1, (k - 1) as nat);
        }
        return 0;
    }
    if rec == SCALE {
        proof {
            lemma_fp_pow_bounds(0, (k - 1) as nat);
        }
        return SCALE;
    }
    let n: u64 = (k - 1) as u64;
    let target: u64 = (SCALE - rec) as u64;
    let mut lo: u64 = 0;
    let mut hi: u64 = SCALE as u64;
    proof {
        lemma_fp_pow_full(n as nat);
        assert(fp_pow_spec(0, n as nat) == 0);
    }
    while hi - lo > 1
        invariant
            lo < hi <= SCALE as u64,
            n >= 1,
            1 <= target <= SCALE as u64,
            fp_pow_spec(SCALE - lo, n as nat) >= target,
            fp_pow_spec(SCALE - hi, n as nat) < target,
        decreases hi - lo,
    {
        let mid = lo + (hi - lo) / 2;
        let p = fp_pow(SCALE as u64 - mid, n);
        if p >= target {
            lo = mid;
        } else {
            hi = mid;
        }
    }
    lo as i64
}

/// Positive half-wave of the sine approximation: for a position `f` in
/// `[0, SCALE]` along the half-period, a scaled rational approximation of
/// `sin(pi * f / SCALE)`, built from `g = f (SCALE - f) / SCALE` as
/// `16 g SCALE / (5 SCALE - 4 g)`.
pub open spec fn half_wave_spec(f: int) -> int {
    let g = (f * (SCALE - f)) / (SCALE as int);
    (16 * g * SCALE) / (5 * SCALE - 4 * g)
}

/// One full period of the sine approximation over a position `u` in
/// `[0, SCALE)`: the positive half-wave on the first half of the period and
/// its mirror image on the second half.
pub open spec fn sine_spec(u: int) -> int {
    if u < HALF {
        half_wave_spec(2 * u)
    } else {
        -half_wave_spec(2 * (u - HALF))
    }
}

fn half_wave(f: u64) -> (r: i64)
    requires
        f <= SCALE as u64,
    ensures
        r == half_wave_spec(f as int),
        0 <= r <= SCALE,
{
    assert(f * (SCALE as u64 - f) <= 250_000_000_000u64) by (nonlinear_arith)
        requires
            f <= SCALE as u64,
    ;
    let g = f * (SCALE as u64 - f) / (SCALE as u64);
    proof {
        lemma_div_bounds(f as int * (SCALE - f), SCALE as int);
        vstd::arithmetic::div_mod::lemma_div_is_ordered(
            f as int * (SCALE - f),
            250_000_000_000int,
            SCALE as int,
        );
    }
    let num = 16 * g * (SCALE as u64);
    let den = 5 * (SCALE as u64) - 4 * g;
    proof {
        assert(16 * (g as int) * SCALE <= SCALE * (5 * SCALE - 4 * g)) by (nonlinear_arith)
            requires
                0 <= g <= 250_000,
        ;
        lemma_div_bounds(num as int, den as int);
        vstd::arithmetic::div_mod::lemma_div_is_ordered(
            num as int,
            SCALE * (den as int),
            den as int,
        );
        vstd::arithmetic::div_mod::lemma_div_multiples_vanish(SCALE as int, den as int);
        assert(SCALE * (den as int) == (den as int) * SCALE) by (nonlinear_arith);
    }
    (num / den) as i64
}

/// Evaluates `sine_spec` on machine integers.
pub fn sine_wave(u: u64) -> (r: i64)
    requires
        u < SCALE as u64,
    ensures
        r == sine_spec(u as int),
        -SCALE <= r <= SCALE,
{
    if u < HALF as u64 {
        half_wave(2 * u)
    } else {
        -half_wave(2 * (u - HALF as u64))
    }
}

/// `z` rounded to the nearest multiple of `step` (ties away from zero).
pub open spec fn round_to_step_spec(z: int, step: int) -> int {
    if z >= 0 {
        ((z + step / 2) / step) * step
    } else {
        -(((-z + step / 2) / step) * step)
    }
}

/// Evaluates `round_to_step_spec` on machine integers. The result is an
/// exact multiple of `step` and at most `step / 2` away from `z`.
pub fn round_to_step(z: i64, step: i64) -> (r: i64)
    requires
        0 < step <= PARAM_LIMIT,
        -8 * PARAM_LIMIT <= z <= 8 * PARAM_LIMIT,
    ensures
        r == round_to_step_spec(z as int, step as int),
        r % step == 0,
        -8 * PARAM_LIMIT - step <= r <= 8 * PARAM_LIMIT + step,
{
    let neg = z < 0;
    let m: u64 = (if neg {
        -z
    } else {
        z
    }) as u64;
    let st = step as u64;
    let k = (m + st / 2) / st;
    proof {
        vstd::arithmetic::div_mod::lemma_fundamental_div_mod(m as int + st / 2, st as int);
        vstd::arithmetic::div_mod::lemma_mod_division_less_than_divisor(
            m as int + st / 2,
            st as int,
        );
        assert((st as int) * ((m as int + st / 2) / (st as int)) == ((m as int + st / 2) / (
        st as int)) * (st as int)) by (nonlinear_arith);
    }
    let mag = k * st;
    proof {
        vstd::arithmetic::div_mod::lemma_mod_multiples_basic(k as int, step as int);
        vstd::arithmetic::div_mod::lemma_mod_multiples_basic(-(k as int), step as int);
        assert(-((k as int) * (step as int)) == (-(k as int)) * (step as int)) by (nonlinear_arith);
    }
    if neg {
        -(mag as i64)
    } else {
        mag as i64
    }
}

} // verus!
