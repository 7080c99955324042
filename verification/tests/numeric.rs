//! Exact expected values for the fixed-point kernels and bounds for the
//! derived samplers.

use demesim::fixed::{
    crossover_rate, exp_neg, fp_pow, gauss_weight, round_to_step, sine_wave, EXP_CUTOFF, HALF,
    SCALE,
};
use demesim::rng::{coin, gen_below, gen_index, normal, std_normal, uniform_sym};

#[test]
fn exp_neg_values() {
    // exp(-0) is exactly one.
    assert_eq!(exp_neg(0), SCALE);
    // exp(-1): 10^12 / (10^6 + 10^6 + 500_000 + 166_666) with truncating
    // steps: t2 = 10^12 / (2 * 10^6) = 500_000, t3 = t2 * 10^6 / (3 * 10^6).
    assert_eq!(exp_neg(1_000_000), 375_000);
    // At the cutoff the weight underflows to zero; just below it only a
    // trace remains.
    assert_eq!(exp_neg(EXP_CUTOFF), 0);
    assert!(exp_neg(EXP_CUTOFF - 1) < 100);
}

#[test]
fn gauss_weight_values() {
    // A phenotype on the optimum always has full weight.
    assert_eq!(gauss_weight(0, SCALE), SCALE);
    assert_eq!(gauss_weight(0, 0), SCALE);
    // A vanishing width gives no weight off the optimum.
    assert_eq!(gauss_weight(123, 0), 0);
    // d = 1.0, sigma = 1.0: q = 0.5, exp(-0.5) by the truncated series:
    // denom = 10^6 + 500_000 + 125_000 + 20_833.
    assert_eq!(gauss_weight(1_000_000, 1_000_000), 1_000_000_000_000 / 1_645_833);
}

#[test]
fn crossover_rate_values() {
    // A single-locus gamete has no junction.
    assert_eq!(crossover_rate(500_000, 1), 0);
    // No recombination means no per-locus crossover at all.
    assert_eq!(crossover_rate(0, 7), 0);
    // Certain recombination means certain crossover.
    assert_eq!(crossover_rate(SCALE, 5), SCALE);
    // With one junction the per-locus rate equals the total rate.
    assert_eq!(crossover_rate(500_000, 2), 500_000);
    assert_eq!(crossover_rate(123_456, 2), 123_456);
}

#[test]
fn fp_pow_values() {
    assert_eq!(fp_pow(500_000, 0), SCALE as u64);
    assert_eq!(fp_pow(500_000, 1), 500_000);
    assert_eq!(fp_pow(500_000, 2), 250_000);
    assert_eq!(fp_pow(SCALE as u64, 9), SCALE as u64);
}

#[test]
fn sine_wave_values() {
    assert_eq!(sine_wave(0), 0);
    // The quarter turn reaches the peak exactly.
    assert_eq!(sine_wave(250_000), SCALE);
    assert_eq!(sine_wave(HALF as u64), 0);
    assert_eq!(sine_wave(750_000), -SCALE);
}

#[test]
fn round_to_step_values() {
    assert_eq!(round_to_step(0, 100_000), 0);
    assert_eq!(round_to_step(149_999, 100_000), 100_000);
    // Ties round away from zero.
    assert_eq!(round_to_step(150_000, 100_000), 200_000);
    assert_eq!(round_to_step(-149_999, 100_000), -100_000);
    assert_eq!(round_to_step(-150_000, 100_000), -200_000);
}

#[test]
fn certain_coins() {
    for _ in 0..100 {
        assert!(!coin(0));
        assert!(!coin(-5));
        assert!(coin(SCALE));
        assert!(coin(SCALE + 5));
    }
}

#[test]
fn sampler_bounds() {
    for _ in 0..200 {
        assert!(gen_below(7) < 7);
        assert_eq!(gen_index(1), 0);
        let u = uniform_sym(1_000);
        assert!(-1_000 <= u && u <= 1_000);
        let z = std_normal();
        assert!(-6 * SCALE <= z && z <= 6 * SCALE);
        let v = normal(100_000);
        assert!(-600_000 <= v && v <= 600_000);
        assert_eq!(normal(0), 0);
    }
}
