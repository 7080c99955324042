//! The six-stage per-tick transition.
//!
//! Each tick updates the environment, computes one fitness weight per
//! individual, draws the number of adult deaths per patch, resamples a new
//! generation weighted by fitness (with a uniform fallback when all
//! weights vanish), recombines diploid candidates, disperses migrants by
//! an in-place permutation, mutates the newcomers in quantized steps, and
//! finally commits: survivors are shuffled, the dead are dropped, and the
//! new generation joins. Every stage preserves the run invariant, and the
//! per-patch population count is carried unchanged through a whole tick.

use vstd::prelude::*;
use vstd::pervasive::VecAdditionalExecFns;

use crate::config::Config;
use crate::fixed::{
    crossover_rate, gauss_weight, gauss_weight_spec, round_to_step, GENOME_LIMIT, HALF, LOCUS_LIMIT,
    PARAM_LIMIT, POP_LIMIT, SCALE,
};
use crate::population::{
    lemma_patch_le_total, lemma_sum_fixed_take_le, lemma_total_pop_congruent, sum_fixed, total_pop,
    Individual, Patch, State,
};
use crate::rng::{coin, gen_below, gen_index, normal, shuffle_vec};

verus! {

/// Adds up a vector of fitness weights.
pub fn sum_weights(weights: &Vec<i64>) -> (total: u64)
    requires
        weights@.len() <= POP_LIMIT,
        forall|i: int| 0 <= i < weights@.len() ==> 0 <= #[trigger] weights@[i] <= SCALE,
    ensures
        total == sum_fixed(weights@),
{
    let n = weights.len();
    let mut acc: u64 = 0;
    let mut i: usize = 0;
    while i < n
        invariant
            i <= n,
            n == weights@.len() <= POP_LIMIT,
            forall|k: int| 0 <= k < n ==> 0 <= #[trigger] weights@[k] <= SCALE,
            acc == sum_fixed(weights@.take(i as int)),
            acc <= (i as int) * (SCALE as int),
        decreases n - i,
    {
        proof {
            assert(weights@.take(i + 1).drop_last() =~= weights@.take(i as int));
            assert(weights@.take(i + 1).last() == weights@[i as int]);
        }
        acc = acc + (weights[i] as u64);
        i = i + 1;
    }
    proof {
        assert(weights@.take(n as int) =~= weights@);
    }
    acc
}

/// One fitness-weighted draw: a uniform point below the total weight,
/// mapped to the first index whose running weight sum passes it. Only an
/// index of positive weight can come out.
pub fn weighted_pick(weights: &Vec<i64>, total: u64) -> (ix: usize)
    requires
        weights@.len() >= 1,
        weights@.len() <= POP_LIMIT,
        forall|i: int| 0 <= i < weights@.len() ==> 0 <= #[trigger] weights@[i] <= SCALE,
        total == sum_fixed(weights@),
        total > 0,
    ensures
        ix < weights@.len(),
        weights@[ix as int] > 0,
{
    let t = gen_below(total);
    let n = weights.len();
    let mut acc: u64 = 0;
    let mut i: usize = 0;
    while i < n
        invariant
            i <= n,
            n == weights@.len() <= POP_LIMIT,
            forall|k: int| 0 <= k < n ==> 0 <= #[trigger] weights@[k] <= SCALE,
            acc == sum_fixed(weights@.take(i as int)),
            total == sum_fixed(weights@),
            t < total,
            acc <= t,
        decreases n - i,
    {
        proof {
            assert(weights@.take(i + 1).drop_last() =~= weights@.take(i as int));
            assert(weights@.take(i + 1).last() == weights@[i as int]);
            lemma_sum_fixed_take_le(weights@, i + 1);
        }
        let w = weights[i] as u64;
        if t < acc + w {
            return i;
        }
        acc = acc + w;
        i = i + 1;
    }
    proof {
        assert(weights@.take(n as int) =~= weights@);
        assert(false);
    }
    0
}

impl State {
    /// One expected-offspring weight per individual, grouped by patch: the
    /// Gaussian fitness kernel of the distance between the patch optimum
    /// and the individual's phenotype, at width `selection_sigma`.
    pub fn reproduction(&self, selection_sigma: i64) -> (w: Vec<Vec<i64>>)
        requires
            self.wf(),
            0 <= selection_sigma <= PARAM_LIMIT,
        ensures
            w@.len() == self.patches@.len(),
            forall|p: int|
                0 <= p < w@.len() ==> (#[trigger] w@[p])@.len()
                    == self.patches@[p].0.individuals@.len(),
            forall|p: int, i: int|
                0 <= p < w@.len() && 0 <= i < w@[p]@.len() ==> #[trigger] w@[p]@[i]
                    == gauss_weight_spec(
                    self.patches@[p].1 - sum_fixed(self.patches@[p].0.individuals@[i].loci@),
                    selection_sigma as int,
                ),
            forall|p: int, i: int|
                0 <= p < w@.len() && 0 <= i < w@[p]@.len() ==> 0 <= #[trigger] w@[p]@[i] <= SCALE,
    {
        let n = self.patches.len();
        let mut out: Vec<Vec<i64>> = Vec::new();
        let mut p: usize = 0;
        while p < n
            invariant
                p <= n,
                self.wf(),
                0 <= selection_sigma <= PARAM_LIMIT,
                n == self.patches@.len(),
                out@.len() == p,
                forall|q: int|
                    0 <= q < p ==> (#[trigger] out@[q])@.len()
                        == self.patches@[q].0.individuals@.len(),
                forall|q: int, i: int|
                    0 <= q < p && 0 <= i < out@[q]@.len() ==> #[trigger] out@[q]@[i]
                        == gauss_weight_spec(
                        self.patches@[q].1 - sum_fixed(self.patches@[q].0.individuals@[i].loci@),
                        selection_sigma as int,
                    ),
                forall|q: int, i: int|
                    0 <= q < p && 0 <= i < out@[q]@.len() ==> 0 <= #[trigger] out@[q]@[i]
                        <= SCALE,
            decreases n - p,
        {
            let pair = &self.patches[p];
            let env = pair.1;
            let m = pair.0.individuals.len();
            let mut ws: Vec<i64> = Vec::new();
            let mut i: usize = 0;
            while i < m
                invariant
                    i <= m,
                    self.wf(),
                    0 <= selection_sigma <= PARAM_LIMIT,
                    p < self.patches@.len(),
                    env == self.patches@[p as int].1,
                    m == self.patches@[p as int].0.individuals@.len(),
                    ws@.len() == i,
                    forall|k: int|
                        0 <= k < i ==> #[trigger] ws@[k] == gauss_weight_spec(
                            self.patches@[p as int].1 - sum_fixed(
                                self.patches@[p as int].0.individuals@[k].loci@,
                            ),
                            selection_sigma as int,
                        ),
                    forall|k: int| 0 <= k < i ==> 0 <= #[trigger] ws@[k] <= SCALE,
                decreases m - i,
            {
                let ind = &self.patches[p].0.individuals[i];
                proof {
                    assert(self.patches@[p as int].0.wf(self.loci as nat));
                    assert(self.patches@[p as int].0.individuals@[i as int].wf(self.loci as nat));
                }
                let phen = ind.phenotype();
                let d = env - phen;
                ws.push(gauss_weight(d, selection_sigma));
                i = i + 1;
            }
            out.push(ws);
            p = p + 1;
        }
        out
    }

    /// The number of adult deaths per patch: patch size minus a binomial
    /// survivor draw at survival probability `gamma`. Full survival means
    /// no deaths; no survival empties the patch.
    pub fn adult_death(&self, gamma: i64) -> (deaths: Vec<usize>)
        requires
            self.wf(),
            0 <= gamma <= SCALE,
        ensures
            deaths@.len() == self.patches@.len(),
            forall|p: int|
                0 <= p < deaths@.len() ==> #[trigger] deaths@[p]
                    <= self.patches@[p].0.individuals@.len(),
            gamma == SCALE ==> forall|p: int| 0 <= p < deaths@.len() ==> #[trigger] deaths@[p] == 0,
            gamma == 0 ==> forall|p: int|
                0 <= p < deaths@.len() ==> #[trigger] deaths@[p]
                    == self.patches@[p].0.individuals@.len(),
    {
        let n = self.patches.len();
        let mut out: Vec<usize> = Vec::new();
        let mut p: usize = 0;
        while p < n
            invariant
                p <= n,
                0 <= gamma <= SCALE,
                n == self.patches@.len(),
                out@.len() == p,
                forall|q: int|
                    0 <= q < p ==> #[trigger] out@[q] <= self.patches@[q].0.individuals@.len(),
                gamma == SCALE ==> forall|q: int| 0 <= q < p ==> #[trigger] out@[q] == 0,
                gamma == 0 ==> forall|q: int|
                    0 <= q < p ==> #[trigger] out@[q] == self.patches@[q].0.individuals@.len(),
            decreases n - p,
        {
            let m = self.patches[p].0.individuals.len();
            let mut survivors: usize = 0;
            let mut i: usize = 0;
            while i < m
                invariant
                    i <= m,
                    survivors <= i,
                    gamma == SCALE ==> survivors == i,
                    gamma == 0 ==> survivors == 0,
                decreases m - i,
            {
                if coin(gamma) {
                    survivors = survivors + 1;
                }
                i = i + 1;
            }
            out.push(m - survivors);
            p = p + 1;
        }
        out
    }
}

/// `ind` carries a copy of the locus vector of some inhabitant of
/// `patch`; when the weights `ws` do not all vanish, of an inhabitant
/// whose weight is positive.
pub open spec fn sampled_from(ind: Individual, patch: Patch, ws: Seq<i64>) -> bool {
    exists|j: int|
        0 <= j < patch.individuals@.len() && #[trigger] patch.individuals@[j].loci@ == ind.loci@
            && (sum_fixed(ws) > 0 ==> ws[j] > 0)
}

impl State {
    /// Builds the candidate new generation: per patch, `deaths` draws
    /// (haploid) or `2 * deaths` draws (diploid) from the patch's own
    /// inhabitants, weighted by fitness and with replacement; an all-zero
    /// weight vector falls back to a uniform draw instead of failing.
    /// Every candidate is a copy of an inhabitant of the same patch and,
    /// when the weights do not all vanish, of one with positive weight.
    pub fn density_regulation(
        &self,
        reproductive_success: Vec<Vec<i64>>,
        death: &Vec<usize>,
        diploid: bool,
    ) -> (ng: Vec<Patch>)
        requires
            self.wf(),
            reproductive_success@.len() == self.patches@.len(),
            forall|p: int|
                0 <= p < self.patches@.len() ==> (#[trigger] reproductive_success@[p])@.len()
                    == self.patches@[p].0.individuals@.len(),
            forall|p: int, i: int|
                0 <= p < self.patches@.len() && 0 <= i < reproductive_success@[p]@.len() ==> 0
                    <= #[trigger] reproductive_success@[p]@[i] <= SCALE,
            death@.len() == self.patches@.len(),
            forall|p: int|
                0 <= p < death@.len() ==> #[trigger] death@[p] <= POP_LIMIT && (death@[p] > 0
                    ==> self.patches@[p].0.individuals@.len() > 0),
        ensures
            ng@.len() == self.patches@.len(),
            forall|p: int|
                0 <= p < ng@.len() ==> (#[trigger] ng@[p]).individuals@.len() == (if diploid {
                    2 * death@[p] as int
                } else {
                    death@[p] as int
                }),
            forall|p: int, i: int|
                0 <= p < ng@.len() && 0 <= i < ng@[p].individuals@.len()
                    ==> (#[trigger] ng@[p].individuals@[i]).wf(self.loci as nat),
            forall|p: int, i: int|
                0 <= p < ng@.len() && 0 <= i < ng@[p].individuals@.len() ==> sampled_from(
                    #[trigger] ng@[p].individuals@[i],
                    self.patches@[p].0,
                    reproductive_success@[p]@,
                ),
    {
        let n = self.patches.len();
        let mut out: Vec<Patch> = Vec::new();
        let mut p: usize = 0;
        while p < n
            invariant
                p <= n,
                self.wf(),
                n == self.patches@.len(),
                reproductive_success@.len() == n,
                forall|q: int|
                    0 <= q < n ==> (#[trigger] reproductive_success@[q])@.len()
                        == self.patches@[q].0.individuals@.len(),
                forall|q: int, i: int|
                    0 <= q < n && 0 <= i < reproductive_success@[q]@.len() ==> 0
                        <= #[trigger] reproductive_success@[q]@[i] <= SCALE,
                death@.len() == n,
                forall|q: int|
                    0 <= q < n ==> #[trigger] death@[q] <= POP_LIMIT && (death@[q] > 0
                        ==> self.patches@[q].0.individuals@.len() > 0),
                out@.len() == p,
                forall|q: int|
                    0 <= q < p ==> (#[trigger] out@[q]).individuals@.len() == (if diploid {
                        2 * death@[q] as int
                    } else {
                        death@[q] as int
                    }),
                forall|q: int, i: int|
                    0 <= q < p && 0 <= i < out@[q].individuals@.len()
                        ==> (#[trigger] out@[q].individuals@[i]).wf(self.loci as nat),
                forall|q: int, i: int|
                    0 <= q < p && 0 <= i < out@[q].individuals@.len() ==> sampled_from(
                        #[trigger] out@[q].individuals@[i],
                        self.patches@[q].0,
                        reproductive_success@[q]@,
                    ),
            decreases n - p,
        {
            let m = self.patches[p].0.individuals.len();
            proof {
                lemma_patch_le_total(self.patches@, p as int);
            }
            let d = death[p];
            let want = if diploid {
                2 * d
            } else {
                d
            };
            let ws = &reproductive_success[p];
            let total = sum_weights(ws);
            let mut inds: Vec<Individual> = Vec::new();
            let mut c: usize = 0;
            while c < want
                invariant
                    c <= want,
                    self.wf(),
                    p < self.patches@.len(),
                    reproductive_success@.len() == self.patches@.len(),
                    m == self.patches@[p as int].0.individuals@.len(),
                    m <= POP_LIMIT,
                    ws == reproductive_success@[p as int],
                    ws@.len() == m,
                    forall|i: int| 0 <= i < ws@.len() ==> 0 <= #[trigger] ws@[i] <= SCALE,
                    total == sum_fixed(ws@),
                    d == death@[p as int],
                    d <= POP_LIMIT,
                    d > 0 ==> m > 0,
                    want == (if diploid {
                        2 * d as int
                    } else {
                        d as int
                    }),
                    inds@.len() == c,
                    forall|k: int|
                        0 <= k < c ==> (#[trigger] inds@[k]).wf(self.loci as nat),
                    death@.len() == self.patches@.len(),
                    forall|k: int|
                        0 <= k < c ==> sampled_from(
                            #[trigger] inds@[k],
                            self.patches@[p as int].0,
                            reproductive_success@[p as int]@,
                        ),
                decreases want - c,
            {
                let ix = if total > 0 {
                    weighted_pick(ws, total)
                } else {
                    gen_index(m)
                };
                let src = &self.patches[p].0.individuals[ix];
                proof {
                    assert(self.patches@[p as int].0.wf(self.loci as nat));
                    assert(self.patches@[p as int].0.individuals@[ix as int].wf(
                        self.loci as nat,
                    ));
                }
                let copy = src.loci.clone();
                assert(copy@ =~= src.loci@);
                let fresh = Individual { loci: copy };
                proof {
                    assert(self.patches@[p as int].0.individuals@[ix as int].loci@
                        == fresh.loci@);
                    assert(sum_fixed(reproductive_success@[p as int]@) > 0
                        ==> reproductive_success@[p as int]@[ix as int] > 0);
                    assert(sampled_from(
                        fresh,
                        self.patches@[p as int].0,
                        reproductive_success@[p as int]@,
                    ));
                }
                inds.push(fresh);
                c = c + 1;
            }
            out.push(Patch { individuals: inds });
            p = p + 1;
        }
        out
    }
}

/// `g` is a gamete of a diploid genome `parent` of `2 k` loci: each of its
/// `k` loci is copied from one of the two homologous positions `j` and
/// `k + j`.
pub open spec fn gamete_of(g: Seq<i64>, parent: Seq<i64>, k: int) -> bool {
    g.len() == k && forall|j: int| 0 <= j < k ==> #[trigger] g[j] == parent[j] || g[j] == parent[
        k + j
    ]
}

/// `g` is one of the two homologous halves of `parent`, taken whole.
pub open spec fn whole_homolog(g: Seq<i64>, parent: Seq<i64>, k: int) -> bool {
    g == parent.subrange(0, k) || g == parent.subrange(k, 2 * k)
}

/// One recombined gamete: a walk over the two homologous halves of an
/// unsplit diploid genome, flipping a "currently swapped" flag at each
/// locus with probability `locus_rec` and copying from the swapped half
/// when set; the walk starts on either half with equal probability. At
/// crossover probability zero the gamete is one parental half, whole.
fn gamete(parent: &Individual, k: usize, locus_rec: i64) -> (g: Vec<i64>)
    requires
        parent.loci@.len() == 2 * k,
        1 <= k,
    ensures
        gamete_of(g@, parent.loci@, k as int),
        locus_rec == 0 ==> whole_homolog(g@, parent.loci@, k as int),
{
    let genome = parent.loci.len();
    let mut swapped = coin(HALF);
    let ghost s0 = swapped;
    let mut out: Vec<i64> = Vec::new();
    let mut j: usize = 0;
    while j < k
        invariant
            j <= k,
            1 <= k,
            genome == parent.loci@.len(),
            parent.loci@.len() == 2 * k,
            out@.len() == j,
            forall|t: int|
                0 <= t < j ==> #[trigger] out@[t] == parent.loci@[t] || out@[t] == parent.loci@[
                    k + t
                ],
            locus_rec == 0 ==> swapped == s0,
            locus_rec == 0 && !s0 ==> forall|t: int|
                0 <= t < j ==> #[trigger] out@[t] == parent.loci@[t],
            locus_rec == 0 && s0 ==> forall|t: int|
                0 <= t < j ==> #[trigger] out@[t] == parent.loci@[k + t],
        decreases k - j,
    {
        if coin(locus_rec) {
            swapped = !swapped;
        }
        if swapped {
            out.push(parent.loci[k + j]);
        } else {
            out.push(parent.loci[j]);
        }
        j = j + 1;
    }
    proof {
        if locus_rec == 0 {
            if s0 {
                assert(out@ =~= parent.loci@.subrange(k as int, 2 * k as int));
            } else {
                assert(out@ =~= parent.loci@.subrange(0, k as int));
            }
        }
    }
    out
}

impl State {
    /// Recombines each patch's candidates: every candidate contributes one
    /// gamete over its `loci / 2`-locus homologs, and adjacent pairs of
    /// candidates fuse into one diploid offspring, halving each patch's
    /// candidate count (an odd trailing candidate, if any, is dropped).
    /// Each offspring locus is copied from one of its parent's two
    /// homologous positions; at recombination probability zero each gamete
    /// is one parental homolog taken whole.
    pub fn recombination(new_generation: Vec<Patch>, rec: i64, loci: usize) -> (r: Vec<Patch>)
        requires
            0 <= rec <= SCALE,
            2 <= loci <= GENOME_LIMIT,
            loci % 2 == 0,
            forall|p: int, i: int|
                0 <= p < new_generation@.len() && 0 <= i < new_generation@[p].individuals@.len()
                    ==> (#[trigger] new_generation@[p].individuals@[i]).wf(loci as nat),
        ensures
            r@.len() == new_generation@.len(),
            forall|p: int|
                0 <= p < r@.len() ==> (#[trigger] r@[p]).individuals@.len()
                    == new_generation@[p].individuals@.len() / 2,
            forall|p: int, i: int|
                0 <= p < r@.len() && 0 <= i < r@[p].individuals@.len()
                    ==> (#[trigger] r@[p].individuals@[i]).wf(loci as nat),
            forall|p: int, i: int|
                0 <= p < r@.len() && 0 <= i < r@[p].individuals@.len() ==> gamete_of(
                    (#[trigger] r@[p].individuals@[i]).loci@.subrange(0, loci as int / 2),
                    new_generation@[p].individuals@[2 * i].loci@,
                    loci as int / 2,
                ) && gamete_of(
                    r@[p].individuals@[i].loci@.subrange(loci as int / 2, loci as int),
                    new_generation@[p].individuals@[2 * i + 1].loci@,
                    loci as int / 2,
                ),
            rec == 0 ==> forall|p: int, i: int|
                0 <= p < r@.len() && 0 <= i < r@[p].individuals@.len() ==> whole_homolog(
                    (#[trigger] r@[p].individuals@[i]).loci@.subrange(0, loci as int / 2),
                    new_generation@[p].individuals@[2 * i].loci@,
                    loci as int / 2,
                ) && whole_homolog(
                    r@[p].individuals@[i].loci@.subrange(loci as int / 2, loci as int),
                    new_generation@[p].individuals@[2 * i + 1].loci@,
                    loci as int / 2,
                ),
    {
        let k = loci / 2;
        let lr = crossover_rate(rec, k);
        let n = new_generation.len();
        let mut out: Vec<Patch> = Vec::new();
        let mut p: usize = 0;
        while p < n
            invariant
                p <= n,
                n == new_generation@.len(),
                1 <= k,
                loci == 2 * k,
                loci <= GENOME_LIMIT,
                0 <= lr <= SCALE,
                rec == 0 ==> lr == 0,
                forall|q: int, i: int|
                    0 <= q < n && 0 <= i < new_generation@[q].individuals@.len()
                        ==> (#[trigger] new_generation@[q].individuals@[i]).wf(loci as nat),
                out@.len() == p,
                forall|q: int|
                    0 <= q < p ==> (#[trigger] out@[q]).individuals@.len()
                        == new_generation@[q].individuals@.len() / 2,
                forall|q: int, i: int|
                    0 <= q < p && 0 <= i < out@[q].individuals@.len()
                        ==> (#[trigger] out@[q].individuals@[i]).wf(loci as nat),
                forall|q: int, i: int|
                    0 <= q < p && 0 <= i < out@[q].individuals@.len() ==> gamete_of(
                        (#[trigger] out@[q].individuals@[i]).loci@.subrange(0, k as int),
                        new_generation@[q].individuals@[2 * i].loci@,
                        k as int,
                    ) && gamete_of(
                        out@[q].individuals@[i].loci@.subrange(k as int, loci as int),
                        new_generation@[q].individuals@[2 * i + 1].loci@,
                        k as int,
                    ),
                rec == 0 ==> forall|q: int, i: int|
                    0 <= q < p && 0 <= i < out@[q].individuals@.len() ==> whole_homolog(
                        (#[trigger] out@[q].individuals@[i]).loci@.subrange(0, k as int),
                        new_generation@[q].individuals@[2 * i].loci@,
                        k as int,
                    ) && whole_homolog(
                        out@[q].individuals@[i].loci@.subrange(k as int, loci as int),
                        new_generation@[q].individuals@[2 * i + 1].loci@,
                        k as int,
                    ),
            decreases n - p,
        {
            let m = new_generation[p].individuals.len();
            let half = m / 2;
            let mut inds: Vec<Individual> = Vec::new();
            let mut i: usize = 0;
            while i < half
                invariant
                    i <= half,
                    p < n,
                    n == new_generation@.len(),
                    1 <= k,
                    loci == 2 * k,
                    loci <= GENOME_LIMIT,
                    0 <= lr <= SCALE,
                    rec == 0 ==> lr == 0,
                    m == new_generation@[p as int].individuals@.len(),
                    half == m / 2,
                    forall|q: int, t: int|
                        0 <= q < n && 0 <= t < new_generation@[q].individuals@.len()
                            ==> (#[trigger] new_generation@[q].individuals@[t]).wf(loci as nat),
                    inds@.len() == i,
                    forall|t: int|
                        0 <= t < i ==> (#[trigger] inds@[t]).wf(loci as nat),
                    forall|t: int|
                        0 <= t < i ==> gamete_of(
                            (#[trigger] inds@[t]).loci@.subrange(0, k as int),
                            new_generation@[p as int].individuals@[2 * t].loci@,
                            k as int,
                        ) && gamete_of(
                            inds@[t].loci@.subrange(k as int, loci as int),
                            new_generation@[p as int].individuals@[2 * t + 1].loci@,
                            k as int,
                        ),
                    rec == 0 ==> forall|t: int|
                        0 <= t < i ==> whole_homolog(
                            (#[trigger] inds@[t]).loci@.subrange(0, k as int),
                            new_generation@[p as int].individuals@[2 * t].loci@,
                            k as int,
                        ) && whole_homolog(
                            inds@[t].loci@.subrange(k as int, loci as int),
                            new_generation@[p as int].individuals@[2 * t + 1].loci@,
                            k as int,
                        ),
                decreases half - i,
            {
                let pa = &new_generation[p].individuals[2 * i];
                let pb = &new_generation[p].individuals[2 * i + 1];
                let mut off = gamete(pa, k, lr);
                let mut tail = gamete(pb, k, lr);
                let ghost g1 = off@;
                let ghost g2 = tail@;
                off.append(&mut tail);
                proof {
                    assert(off@.subrange(0, k as int) =~= g1);
                    assert(off@.subrange(k as int, loci as int) =~= g2);
                }
                let fresh = Individual { loci: off };
                inds.push(fresh);
                i = i + 1;
            }
            out.push(Patch { individuals: inds });
            p = p + 1;
        }
        out
    }
}

/// Total number of candidates over a sequence of patches.
pub open spec fn total_candidates(ps: Seq<Patch>) -> int
    decreases ps.len(),
{
    if ps.len() == 0 {
        0
    } else {
        total_candidates(ps.drop_last()) + ps.last().individuals@.len()
    }
}

/// The candidate total only depends on the patch sizes.
pub proof fn lemma_total_candidates_congruent(ps1: Seq<Patch>, ps2: Seq<Patch>)
    requires
        ps1.len() == ps2.len(),
        forall|i: int|
            0 <= i < ps1.len() ==> (#[trigger] ps1[i]).individuals@.len()
                == ps2[i].individuals@.len(),
    ensures
        total_candidates(ps1) == total_candidates(ps2),
    decreases ps1.len(),
{
    if ps1.len() > 0 {
        assert(forall|i: int|
            0 <= i < ps1.drop_last().len() ==> (#[trigger] ps1.drop_last()[i]) == ps1[i]
                && ps2.drop_last()[i] == ps2[i]);
        lemma_total_candidates_congruent(ps1.drop_last(), ps2.drop_last());
        assert(ps1.last() == ps1[ps1.len() - 1]);
        assert(ps2.last() == ps2[ps1.len() - 1]);
    }
}

/// The locus vectors of one patch's individuals, in slot order.
pub open spec fn patch_views(p: Patch) -> Seq<Seq<i64>> {
    Seq::new(p.individuals@.len(), |i: int| p.individuals@[i].loci@)
}

/// The locus vectors of a whole candidate population, patch by patch.
pub open spec fn flat_views(ps: Seq<Patch>) -> Seq<Seq<i64>>
    decreases ps.len(),
{
    if ps.len() == 0 {
        Seq::empty()
    } else {
        flat_views(ps.drop_last()) + patch_views(ps.last())
    }
}

/// The flattened view list has one entry per candidate.
pub proof fn lemma_flat_views_len(ps: Seq<Patch>)
    ensures
        flat_views(ps).len() == total_candidates(ps),
    decreases ps.len(),
{
    if ps.len() > 0 {
        lemma_flat_views_len(ps.drop_last());
    }
}

/// The flattened view list only depends on the per-patch view lists.
pub proof fn lemma_flat_views_congruent(ps1: Seq<Patch>, ps2: Seq<Patch>)
    requires
        ps1.len() == ps2.len(),
        forall|q: int| 0 <= q < ps1.len() ==> patch_views(#[trigger] ps1[q]) == patch_views(ps2[q]),
    ensures
        flat_views(ps1) == flat_views(ps2),
    decreases ps1.len(),
{
    if ps1.len() > 0 {
        assert(forall|q: int|
            0 <= q < ps1.drop_last().len() ==> (#[trigger] ps1.drop_last()[q]) == ps1[q]
                && ps2.drop_last()[q] == ps2[q]);
        lemma_flat_views_congruent(ps1.drop_last(), ps2.drop_last());
        assert(ps1.last() == ps1[ps1.len() - 1]);
        assert(ps2.last() == ps2[ps1.len() - 1]);
    }
}

/// The candidates before patch `p` fill the flat list up to the start of
/// patch `p`'s chunk, which itself fits inside the list.
pub proof fn lemma_total_candidates_take_bound(ps: Seq<Patch>, p: int)
    requires
        0 <= p < ps.len(),
    ensures
        total_candidates(ps.take(p)) >= 0,
        total_candidates(ps.take(p)) + ps[p].individuals@.len() <= total_candidates(ps),
    decreases ps.len(),
{
    if p == ps.len() - 1 {
        assert(ps.take(p) =~= ps.drop_last());
        lemma_total_candidates_nonneg(ps.take(p));
    } else {
        assert(ps.drop_last().take(p) =~= ps.take(p));
        assert(ps.drop_last()[p] == ps[p]);
        lemma_total_candidates_take_bound(ps.drop_last(), p);
    }
}

pub proof fn lemma_total_candidates_nonneg(ps: Seq<Patch>)
    ensures
        total_candidates(ps) >= 0,
    decreases ps.len(),
{
    if ps.len() > 0 {
        lemma_total_candidates_nonneg(ps.drop_last());
    }
}

/// Replacing the locus vector in one slot of one patch is one update of
/// the flattened view list, at that slot's global position.
pub proof fn lemma_flat_views_update(
    ps1: Seq<Patch>,
    ps2: Seq<Patch>,
    p: int,
    i: int,
    v: Seq<i64>,
)
    requires
        ps1.len() == ps2.len(),
        0 <= p < ps1.len(),
        0 <= i < ps1[p].individuals@.len(),
        forall|q: int|
            0 <= q < ps1.len() && q != p ==> patch_views(#[trigger] ps2[q]) == patch_views(
                ps1[q],
            ),
        patch_views(ps2[p]) == patch_views(ps1[p]).update(i, v),
    ensures
        flat_views(ps2) =~= flat_views(ps1).update(total_candidates(ps1.take(p)) + i, v),
    decreases ps1.len(),
{
    lemma_flat_views_len(ps1.drop_last());
    lemma_total_candidates_take_bound(ps1, p);
    if p == ps1.len() - 1 {
        assert(forall|q: int|
            0 <= q < ps1.drop_last().len() ==> (#[trigger] ps1.drop_last()[q]) == ps1[q]
                && ps2.drop_last()[q] == ps2[q]);
        lemma_flat_views_congruent(ps1.drop_last(), ps2.drop_last());
        assert(ps1.take(p) =~= ps1.drop_last());
        assert(ps1.last() == ps1[p]);
        assert(ps2.last() == ps2[p]);
    } else {
        assert(forall|q: int|
            0 <= q < ps1.drop_last().len() ==> (#[trigger] ps1.drop_last()[q]) == ps1[q]
                && ps2.drop_last()[q] == ps2[q]);
        assert(ps1.drop_last()[p] == ps1[p]);
        lemma_flat_views_update(ps1.drop_last(), ps2.drop_last(), p, i, v);
        assert(ps1.drop_last().take(p) =~= ps1.take(p));
        assert(ps1.last() == ps1[ps1.len() - 1]);
        assert(ps2.last() == ps2[ps1.len() - 1]);
        lemma_total_candidates_take_bound(ps1.drop_last(), p);
        lemma_flat_views_len(ps1.drop_last().drop_last());
    }
}

/// The flat view at a slot's global position is that slot's locus vector.
pub proof fn lemma_flat_views_index(ps: Seq<Patch>, p: int, i: int)
    requires
        0 <= p < ps.len(),
        0 <= i < ps[p].individuals@.len(),
    ensures
        0 <= total_candidates(ps.take(p)) + i < flat_views(ps).len(),
        flat_views(ps)[total_candidates(ps.take(p)) + i] == ps[p].individuals@[i].loci@,
    decreases ps.len(),
{
    lemma_flat_views_len(ps);
    lemma_flat_views_len(ps.drop_last());
    lemma_total_candidates_take_bound(ps, p);
    if p == ps.len() - 1 {
        assert(ps.take(p) =~= ps.drop_last());
        assert(ps.last() == ps[p]);
    } else {
        assert(ps.drop_last()[p] == ps[p]);
        lemma_flat_views_index(ps.drop_last(), p, i);
        assert(ps.drop_last().take(p) =~= ps.take(p));
        lemma_total_candidates_take_bound(ps.drop_last(), p);
    }
}

/// Swapping two slots of a sequence leaves its multiset unchanged.
pub proof fn lemma_swap_to_multiset<A>(s: Seq<A>, i: int, j: int)
    requires
        0 <= i < s.len(),
        0 <= j < s.len(),
    ensures
        s.update(i, s[j]).update(j, s[i]).to_multiset() == s.to_multiset(),
{
    broadcast use vstd::seq_lib::group_to_multiset_ensures;
    broadcast use vstd::multiset::group_multiset_axioms;

    if i == j {
        assert(s.update(i, s[j]).update(j, s[i]) =~= s);
    } else {
        let s1 = s.update(i, s[j]);
        let s2 = s1.update(j, s[i]);
        assert(s.contains(s[i]));
        assert(s.to_multiset().count(s[i]) > 0);
        assert(s1.to_multiset() =~= s.to_multiset().insert(s[j]).remove(s[i]));
        assert(s1[j] == s[j]);
        assert(s2.to_multiset() =~= s1.to_multiset().insert(s[i]).remove(s1[j]));
        assert(s2.to_multiset() =~= s.to_multiset());
    }
}

/// `ind` carries the locus vector of some individual somewhere in `pool`.
pub open spec fn drawn_from(ind: Individual, pool: Seq<Patch>) -> bool {
    exists|q: int, t: int|
        0 <= q < pool.len() && 0 <= t < pool[q].individuals@.len()
            && #[trigger] pool[q].individuals@[t].loci@ == ind.loci@
}

/// A copy of the individual at patch `p`, slot `i`.
fn get_individual(ng: &Vec<Patch>, p: usize, i: usize) -> (ind: Individual)
    requires
        p < ng@.len(),
        i < ng@[p as int].individuals@.len(),
    ensures
        ind.loci@ == ng@[p as int].individuals@[i as int].loci@,
{
    let src = &ng[p].individuals[i];
    let copy = src.loci.clone();
    assert(copy@ =~= src.loci@);
    Individual { loci: copy }
}

/// Writes `ind` into patch `p`, slot `i`, leaving every other slot as it
/// was.
fn set_individual(ng: &mut Vec<Patch>, p: usize, i: usize, ind: Individual)
    requires
        p < old(ng)@.len(),
        i < old(ng)@[p as int].individuals@.len(),
    ensures
        final(ng)@.len() == old(ng)@.len(),
        forall|q: int|
            0 <= q < old(ng)@.len() && q != p ==> #[trigger] final(ng)@[q] == old(ng)@[q],
        final(ng)@[p as int].individuals@ == old(ng)@[p as int].individuals@.update(
            i as int,
            ind,
        ),
{
    let mut tmp = Patch { individuals: Vec::new() };
    ng.set_and_swap(p, &mut tmp);
    tmp.individuals.set(i, ind);
    ng.set_and_swap(p, &mut tmp);
}

impl State {
    /// Flags each candidate for migration independently with probability
    /// `m`, pools the flagged candidates across all patches, and permutes
    /// the pool in place by random swaps. Patch boundaries and counts are
    /// untouched — dispersal is a permutation, never a resample — so the
    /// outgoing locus vectors are exactly the incoming ones rearranged:
    /// their multiset is preserved, and with it every patch's count and
    /// the candidate total. A zero dispersal probability moves nothing at
    /// all.
    pub fn dispersal(new_generation: Vec<Patch>, m: i64) -> (r: Vec<Patch>)
        ensures
            r@.len() == new_generation@.len(),
            forall|p: int|
                0 <= p < r@.len() ==> (#[trigger] r@[p]).individuals@.len()
                    == new_generation@[p].individuals@.len(),
            total_candidates(r@) == total_candidates(new_generation@),
            flat_views(r@).to_multiset() == flat_views(new_generation@).to_multiset(),
            forall|p: int, i: int|
                0 <= p < r@.len() && 0 <= i < r@[p].individuals@.len() ==> drawn_from(
                    #[trigger] r@[p].individuals@[i],
                    new_generation@,
                ),
            m <= 0 ==> r@ == new_generation@,
    {
        let n = new_generation.len();
        let mut ng = new_generation;
        let ghost orig = ng@;
        let mut pool: Vec<(usize, usize)> = Vec::new();
        let mut p: usize = 0;
        while p < n
            invariant
                p <= n,
                n == ng@.len(),
                ng@ == orig,
                forall|e: int|
                    0 <= e < pool@.len() ==> (#[trigger] pool@[e]).0 < n && pool@[e].1
                        < ng@[pool@[e].0 as int].individuals@.len(),
                m <= 0 ==> pool@.len() == 0,
            decreases n - p,
        {
            let mlen = ng[p].individuals.len();
            let mut i: usize = 0;
            while i < mlen
                invariant
                    i <= mlen,
                    p < n,
                    n == ng@.len(),
                    ng@ == orig,
                    mlen == ng@[p as int].individuals@.len(),
                    forall|e: int|
                        0 <= e < pool@.len() ==> (#[trigger] pool@[e]).0 < n && pool@[e].1
                            < ng@[pool@[e].0 as int].individuals@.len(),
                    m <= 0 ==> pool@.len() == 0,
                decreases mlen - i,
            {
                if coin(m) {
                    pool.push((p, i));
                }
                i = i + 1;
            }
            p = p + 1;
        }
        proof {
            assert forall|q: int, t: int|
                0 <= q < ng@.len() && 0 <= t < ng@[q].individuals@.len() implies drawn_from(
                ng@[q].individuals@[t],
                orig,
            ) by {
                assert(orig[q].individuals@[t].loci@ == ng@[q].individuals@[t].loci@);
            }
        }
        let mut s = pool.len();
        while s > 1
            invariant
                s <= pool@.len(),
                n == ng@.len(),
                n == orig.len(),
                forall|q: int|
                    0 <= q < n ==> (#[trigger] ng@[q]).individuals@.len()
                        == orig[q].individuals@.len(),
                forall|e: int|
                    0 <= e < pool@.len() ==> (#[trigger] pool@[e]).0 < n && pool@[e].1
                        < ng@[pool@[e].0 as int].individuals@.len(),
                forall|q: int, t: int|
                    0 <= q < n && 0 <= t < ng@[q].individuals@.len() ==> drawn_from(
                        #[trigger] ng@[q].individuals@[t],
                        orig,
                    ),
                flat_views(ng@).to_multiset() == flat_views(orig).to_multiset(),
                m <= 0 ==> pool@.len() == 0,
                m <= 0 ==> ng@ == orig,
            decreases s,
        {
            s = s - 1;
            let j = gen_index(s + 1);
            let (pa, ia) = pool[s];
            let (pb, ib) = pool[j];
            let a = get_individual(&ng, pa, ia);
            let b = get_individual(&ng, pb, ib);
            proof {
                assert(drawn_from(ng@[pa as int].individuals@[ia as int], orig));
                assert(drawn_from(ng@[pb as int].individuals@[ib as int], orig));
                assert(drawn_from(a, orig));
                assert(drawn_from(b, orig));
            }
            let ghost before = ng@;
            set_individual(&mut ng, pa, ia, b);
            let ghost mid = ng@;
            set_individual(&mut ng, pb, ib, a);
            proof {
                let gi = total_candidates(before.take(pa as int)) + ia;
                let gj = total_candidates(before.take(pb as int)) + ib;
                assert(patch_views(mid[pa as int]) =~= patch_views(before[pa as int]).update(
                    ia as int,
                    b.loci@,
                ));
                lemma_flat_views_update(before, mid, pa as int, ia as int, b.loci@);
                assert(patch_views(ng@[pb as int]) =~= patch_views(mid[pb as int]).update(
                    ib as int,
                    a.loci@,
                ));
                lemma_flat_views_update(mid, ng@, pb as int, ib as int, a.loci@);
                assert(mid.take(pb as int).len() == before.take(pb as int).len());
                assert(forall|q: int|
                    0 <= q < pb ==> (#[trigger] mid.take(pb as int)[q]).individuals@.len()
                        == before.take(pb as int)[q].individuals@.len());
                lemma_total_candidates_congruent(mid.take(pb as int), before.take(pb as int));
                lemma_flat_views_index(before, pa as int, ia as int);
                lemma_flat_views_index(before, pb as int, ib as int);
                assert(flat_views(before)[gi] == a.loci@);
                assert(flat_views(before)[gj] == b.loci@);
                assert(flat_views(ng@) =~= flat_views(before).update(gi, flat_views(before)[gj])
                    .update(gj, flat_views(before)[gi]));
                lemma_swap_to_multiset(flat_views(before), gi, gj);
                assert(flat_views(ng@).to_multiset() == flat_views(before).to_multiset());
            }
            proof {
                assert forall|q: int, t: int|
                    0 <= q < n && 0 <= t < ng@[q].individuals@.len() implies drawn_from(
                    ng@[q].individuals@[t],
                    orig,
                ) by {
                    if q == pb as int && t == ib as int {
                        assert(ng@[q].individuals@[t] == a);
                    } else if q == pa as int && t == ia as int {
                        assert(ng@[q].individuals@[t] == b);
                    } else {
                        assert(ng@[q].individuals@[t] == before[q].individuals@[t]);
                        assert(drawn_from(before[q].individuals@[t], orig));
                    }
                }
            }
        }
        proof {
            lemma_total_candidates_congruent(ng@, orig);
        }
        ng
    }
}

impl State {
    /// Mutates the new generation: each locus of each candidate mutates
    /// independently with probability `mutation_mu`, adding a zero-mean
    /// normal draw of width `mutation_sigma` quantized to the nearest
    /// multiple of `mutation_step` — so a changed locus always differs
    /// from its old value by an exact multiple of the step. A mutation
    /// that would leave the representable locus range is not applied, and
    /// a zero rate or a zero step changes nothing.
    pub fn mutation(
        new_generation: Vec<Patch>,
        mutation_mu: i64,
        mutation_sigma: i64,
        mutation_step: i64,
    ) -> (r: Vec<Patch>)
        requires
            0 <= mutation_mu <= SCALE,
            0 <= mutation_sigma <= PARAM_LIMIT,
            0 <= mutation_step <= PARAM_LIMIT,
            forall|p: int, i: int, j: int|
                0 <= p < new_generation@.len() && 0 <= i < new_generation@[p].individuals@.len()
                    && 0 <= j < new_generation@[p].individuals@[i].loci@.len() ==> -LOCUS_LIMIT
                    <= #[trigger] new_generation@[p].individuals@[i].loci@[j] <= LOCUS_LIMIT,
        ensures
            r@.len() == new_generation@.len(),
            forall|p: int|
                0 <= p < r@.len() ==> (#[trigger] r@[p]).individuals@.len()
                    == new_generation@[p].individuals@.len(),
            forall|p: int, i: int|
                0 <= p < r@.len() && 0 <= i < r@[p].individuals@.len()
                    ==> (#[trigger] r@[p].individuals@[i]).loci@.len()
                    == new_generation@[p].individuals@[i].loci@.len(),
            forall|p: int, i: int, j: int|
                0 <= p < r@.len() && 0 <= i < r@[p].individuals@.len() && 0 <= j
                    < r@[p].individuals@[i].loci@.len() ==> -LOCUS_LIMIT
                    <= #[trigger] r@[p].individuals@[i].loci@[j] <= LOCUS_LIMIT,
            mutation_step > 0 ==> forall|p: int, i: int, j: int|
                0 <= p < r@.len() && 0 <= i < r@[p].individuals@.len() && 0 <= j
                    < r@[p].individuals@[i].loci@.len()
                    ==> ((#[trigger] r@[p].individuals@[i].loci@[j])
                    - new_generation@[p].individuals@[i].loci@[j]) % (mutation_step as int) == 0,
            mutation_mu == 0 || mutation_step == 0 ==> forall|p: int, i: int, j: int|
                0 <= p < r@.len() && 0 <= i < r@[p].individuals@.len() && 0 <= j
                    < r@[p].individuals@[i].loci@.len()
                    ==> (#[trigger] r@[p].individuals@[i].loci@[j])
                    == new_generation@[p].individuals@[i].loci@[j],
    {
        let n = new_generation.len();
        let mut out: Vec<Patch> = Vec::new();
        let mut p: usize = 0;
        while p < n
            invariant
                p <= n,
                n == new_generation@.len(),
                0 <= mutation_mu <= SCALE,
                0 <= mutation_sigma <= PARAM_LIMIT,
                0 <= mutation_step <= PARAM_LIMIT,
                forall|q: int, i: int, j: int|
                    0 <= q < n && 0 <= i < new_generation@[q].individuals@.len() && 0 <= j
                        < new_generation@[q].individuals@[i].loci@.len() ==> -LOCUS_LIMIT
                        <= #[trigger] new_generation@[q].individuals@[i].loci@[j] <= LOCUS_LIMIT,
                out@.len() == p,
                forall|q: int|
                    0 <= q < p ==> (#[trigger] out@[q]).individuals@.len()
                        == new_generation@[q].individuals@.len(),
                forall|q: int, i: int|
                    0 <= q < p && 0 <= i < out@[q].individuals@.len()
                        ==> (#[trigger] out@[q].individuals@[i]).loci@.len()
                        == new_generation@[q].individuals@[i].loci@.len(),
                forall|q: int, i: int, j: int|
                    0 <= q < p && 0 <= i < out@[q].individuals@.len() && 0 <= j
                        < out@[q].individuals@[i].loci@.len() ==> -LOCUS_LIMIT
                        <= #[trigger] out@[q].individuals@[i].loci@[j] <= LOCUS_LIMIT,
                mutation_step > 0 ==> forall|q: int, i: int, j: int|
                    0 <= q < p && 0 <= i < out@[q].individuals@.len() && 0 <= j
                        < out@[q].individuals@[i].loci@.len()
                        ==> ((#[trigger] out@[q].individuals@[i].loci@[j])
                        - new_generation@[q].individuals@[i].loci@[j]) % (mutation_step as int)
                        == 0,
                mutation_mu == 0 || mutation_step == 0 ==> forall|q: int, i: int, j: int|
                    0 <= q < p && 0 <= i < out@[q].individuals@.len() && 0 <= j
                        < out@[q].individuals@[i].loci@.len()
                        ==> (#[trigger] out@[q].individuals@[i].loci@[j])
                        == new_generation@[q].individuals@[i].loci@[j],
            decreases n - p,
        {
            let mlen = new_generation[p].individuals.len();
            let mut inds: Vec<Individual> = Vec::new();
            let mut i: usize = 0;
            while i < mlen
                invariant
                    i <= mlen,
                    p < n,
                    n == new_generation@.len(),
                    0 <= mutation_mu <= SCALE,
                    0 <= mutation_sigma <= PARAM_LIMIT,
                    0 <= mutation_step <= PARAM_LIMIT,
                    mlen == new_generation@[p as int].individuals@.len(),
                    forall|q: int, t: int, j: int|
                        0 <= q < n && 0 <= t < new_generation@[q].individuals@.len() && 0 <= j
                            < new_generation@[q].individuals@[t].loci@.len() ==> -LOCUS_LIMIT
                            <= #[trigger] new_generation@[q].individuals@[t].loci@[j]
                            <= LOCUS_LIMIT,
                    inds@.len() == i,
                    forall|t: int|
                        0 <= t < i ==> (#[trigger] inds@[t]).loci@.len()
                            == new_generation@[p as int].individuals@[t].loci@.len(),
                    forall|t: int, j: int|
                        0 <= t < i && 0 <= j < inds@[t].loci@.len() ==> -LOCUS_LIMIT
                            <= #[trigger] inds@[t].loci@[j] <= LOCUS_LIMIT,
                    mutation_step > 0 ==> forall|t: int, j: int|
                        0 <= t < i && 0 <= j < inds@[t].loci@.len()
                            ==> ((#[trigger] inds@[t].loci@[j])
                            - new_generation@[p as int].individuals@[t].loci@[j]) % (
                        mutation_step as int) == 0,
                    mutation_mu == 0 || mutation_step == 0 ==> forall|t: int, j: int|
                        0 <= t < i && 0 <= j < inds@[t].loci@.len() ==> (#[trigger] inds@[t].loci@[
                            j
                        ]) == new_generation@[p as int].individuals@[t].loci@[j],
                decreases mlen - i,
            {
                let src = &new_generation[p].individuals[i];
                let glen = src.loci.len();
                let mut loci: Vec<i64> = Vec::new();
                let mut j: usize = 0;
                while j < glen
                    invariant
                        j <= glen,
                        p < n,
                        i < mlen,
                        n == new_generation@.len(),
                        mlen == new_generation@[p as int].individuals@.len(),
                        src == new_generation@[p as int].individuals@[i as int],
                        glen == src.loci@.len(),
                        0 <= mutation_mu <= SCALE,
                        0 <= mutation_sigma <= PARAM_LIMIT,
                        0 <= mutation_step <= PARAM_LIMIT,
                        forall|t: int|
                            0 <= t < glen ==> -LOCUS_LIMIT <= #[trigger] src.loci@[t]
                                <= LOCUS_LIMIT,
                        loci@.len() == j,
                        forall|t: int|
                            0 <= t < j ==> -LOCUS_LIMIT <= #[trigger] loci@[t] <= LOCUS_LIMIT,
                        mutation_step > 0 ==> forall|t: int|
                            0 <= t < j ==> ((#[trigger] loci@[t]) - src.loci@[t]) % (
                            mutation_step as int) == 0,
                        mutation_mu == 0 || mutation_step == 0 ==> forall|t: int|
                            0 <= t < j ==> #[trigger] loci@[t] == src.loci@[t],
                    decreases glen - j,
                {
                    let v = src.loci[j];
                    let mut nv = v;
                    if mutation_step > 0 && coin(mutation_mu) {
                        let delta = round_to_step(normal(mutation_sigma), mutation_step);
                        let cand = v + delta;
                        if -LOCUS_LIMIT <= cand && cand <= LOCUS_LIMIT {
                            nv = cand;
                        }
                    }
                    proof {
                        if mutation_step > 0 {
                            vstd::arithmetic::div_mod::lemma_mod_multiples_basic(
                                0,
                                mutation_step as int,
                            );
                        }
                    }
                    loci.push(nv);
                    j = j + 1;
                }
                inds.push(Individual { loci });
                i = i + 1;
            }
            out.push(Patch { individuals: inds });
            p = p + 1;
        }
        out
    }
}

impl State {
    /// Commits the tick: per patch, the surviving adults are shuffled, as
    /// many adults as died are dropped from the end, and the patch's new
    /// generation joins; the tick counter then advances by one. With the
    /// new generation sized exactly by the death counts, every patch
    /// keeps its population size and its environment, the survivors are a
    /// sub-multiset of the patch's old inhabitants, and the patch's new
    /// generation stands at the end, in order.
    pub fn update(&mut self, new_generation: Vec<Patch>, death: Vec<usize>)
        requires
            old(self).wf(),
            old(self).tick < u64::MAX,
            new_generation@.len() == old(self).patches@.len(),
            death@.len() == old(self).patches@.len(),
            forall|p: int|
                0 <= p < death@.len() ==> #[trigger] death@[p]
                    <= old(self).patches@[p].0.individuals@.len(),
            forall|p: int|
                0 <= p < new_generation@.len() ==> (#[trigger] new_generation@[p]).individuals@.len()
                    == death@[p],
            forall|p: int, i: int|
                0 <= p < new_generation@.len() && 0 <= i < new_generation@[p].individuals@.len()
                    ==> (#[trigger] new_generation@[p].individuals@[i]).wf(old(self).loci as nat),
        ensures
            final(self).wf(),
            final(self).tick == old(self).tick + 1,
            final(self).diploid == old(self).diploid,
            final(self).loci == old(self).loci,
            final(self).patches@.len() == old(self).patches@.len(),
            forall|p: int|
                0 <= p < final(self).patches@.len() ==> (#[trigger] final(self).patches@[p]).1
                    == old(self).patches@[p].1,
            forall|p: int|
                0 <= p < final(self).patches@.len()
                    ==> (#[trigger] final(self).patches@[p]).0.individuals@.len()
                    == old(self).patches@[p].0.individuals@.len(),
            forall|p: int|
                0 <= p < final(self).patches@.len() ==> (#[trigger] final(self).patches@[p]).0.individuals@.subrange(
                    0,
                    old(self).patches@[p].0.individuals@.len() - death@[p],
                ).to_multiset().subset_of(old(self).patches@[p].0.individuals@.to_multiset()),
            forall|p: int|
                0 <= p < final(self).patches@.len() ==> (#[trigger] final(self).patches@[p]).0.individuals@.subrange(
                    old(self).patches@[p].0.individuals@.len() - death@[p],
                    old(self).patches@[p].0.individuals@.len() as int,
                ) == new_generation@[p].individuals@,
    {
        let ghost entry = *self;
        let n = self.patches.len();
        let mut ng = new_generation;
        let ghost allng = ng@;
        let mut p: usize = 0;
        while p < n
            invariant
                p <= n,
                n == self.patches@.len(),
                n == entry.patches@.len(),
                self.tick == entry.tick,
                self.diploid == entry.diploid,
                self.loci == entry.loci,
                entry.wf(),
                allng.len() == n,
                death@.len() == n,
                ng@ =~= allng.subrange(p as int, n as int),
                forall|q: int|
                    0 <= q < n ==> #[trigger] death@[q]
                        <= entry.patches@[q].0.individuals@.len(),
                forall|q: int|
                    0 <= q < n ==> (#[trigger] allng[q]).individuals@.len() == death@[q],
                forall|q: int, i: int|
                    0 <= q < n && 0 <= i < allng[q].individuals@.len()
                        ==> (#[trigger] allng[q].individuals@[i]).wf(entry.loci as nat),
                forall|q: int|
                    0 <= q < p ==> (#[trigger] self.patches@[q]).1 == entry.patches@[q].1
                        && self.patches@[q].0.individuals@.len()
                        == entry.patches@[q].0.individuals@.len() && self.patches@[q].0.wf(
                        entry.loci as nat,
                    ),
                forall|q: int|
                    0 <= q < p ==> (#[trigger] self.patches@[q]).0.individuals@.subrange(
                        0,
                        entry.patches@[q].0.individuals@.len() - death@[q],
                    ).to_multiset().subset_of(entry.patches@[q].0.individuals@.to_multiset()),
                forall|q: int|
                    0 <= q < p ==> (#[trigger] self.patches@[q]).0.individuals@.subrange(
                        entry.patches@[q].0.individuals@.len() - death@[q],
                        entry.patches@[q].0.individuals@.len() as int,
                    ) == allng[q].individuals@,
                forall|q: int| p <= q < n ==> #[trigger] self.patches@[q] == entry.patches@[q],
            decreases n - p,
        {
            let d = death[p];
            let newpatch = ng.remove(0);
            proof {
                assert(newpatch == allng[p as int]);
            }
            let mut tmp = (Patch { individuals: Vec::new() }, 0i64);
            self.patches.set_and_swap(p, &mut tmp);
            let ghost before = tmp.0.individuals@;
            proof {
                assert(entry.patches@[p as int].0.wf(entry.loci as nat));
            }
            shuffle_vec(&mut tmp.0.individuals);
            proof {
                broadcast use vstd::seq_lib::group_to_multiset_ensures;

                let s2 = tmp.0.individuals@;
                assert forall|i: int| 0 <= i < s2.len() implies (#[trigger] s2[i]).wf(
                    entry.loci as nat,
                ) by {
                    assert(s2.contains(s2[i]));
                    assert(s2.to_multiset().count(s2[i]) > 0);
                    assert(before.to_multiset() == s2.to_multiset());
                    assert(before.to_multiset().count(s2[i]) > 0);
                    assert(before.contains(s2[i]));
                    let k = choose|k: int| 0 <= k < before.len() && before[k] == s2[i];
                    assert(before[k].wf(entry.loci as nat));
                }
            }
            let ghost shuffled = tmp.0.individuals@;
            let keep = tmp.0.individuals.len() - d;
            tmp.0.individuals.truncate(keep);
            tmp.0.extend(newpatch);
            self.patches.set_and_swap(p, &mut tmp);
            proof {
                let old_inds = entry.patches@[p as int].0.individuals@;
                let new_inds = self.patches@[p as int].0.individuals@;
                assert(new_inds == shuffled.subrange(0, keep as int) + allng[
                    p as int
                ].individuals@);
                assert(new_inds.subrange(0, keep as int) =~= shuffled.subrange(0, keep as int));
                assert(new_inds.subrange(keep as int, old_inds.len() as int) =~= allng[
                    p as int
                ].individuals@);
                assert(shuffled.take(keep as int) =~= shuffled.subrange(0, keep as int));
                crate::population::lemma_take_submultiset(shuffled, keep as int);
                assert(shuffled.to_multiset() == old_inds.to_multiset());
                assert(new_inds.subrange(0, keep as int).to_multiset().subset_of(
                    old_inds.to_multiset(),
                ));
            }
            p = p + 1;
        }
        proof {
            lemma_total_pop_congruent(self.patches@, entry.patches@);
        }
        self.tick = self.tick + 1;
    }
}

/// All but some `d` trailing newcomers of `now` are adults that already
/// stood in `before`: the commit only ever replaces as many adults as
/// died, and never invents a survivor.
pub open spec fn retains_adults(now: Seq<Individual>, before: Seq<Individual>) -> bool {
    exists|d: int|
        0 <= d <= before.len() && #[trigger] now.subrange(
            0,
            before.len() - d,
        ).to_multiset().subset_of(before.to_multiset())
}

/// One full tick of the simulation: environment update, reproduction,
/// adult death, density regulation, recombination when diploid, dispersal,
/// mutation, and the commit. The run invariant is preserved, the tick
/// counter advances by exactly one, and — because exactly as many
/// offspring are made as adults died — every patch keeps its population
/// size through the whole tick.
pub fn step(state: &mut State, config: &Config)
    requires
        old(state).wf(),
        config.wf(),
        old(state).tick < u64::MAX,
    ensures
        final(state).wf(),
        final(state).tick == old(state).tick + 1,
        final(state).diploid == old(state).diploid,
        final(state).loci == old(state).loci,
        final(state).patches@.len() == old(state).patches@.len(),
        forall|p: int|
            0 <= p < final(state).patches@.len()
                ==> (#[trigger] final(state).patches@[p]).0.individuals@.len()
                == old(state).patches@[p].0.individuals@.len(),
        total_pop(final(state).patches@) == total_pop(old(state).patches@),
        forall|p: int|
            0 <= p < final(state).patches@.len() ==> retains_adults(
                (#[trigger] final(state).patches@[p]).0.individuals@,
                old(state).patches@[p].0.individuals@,
            ),
        config.environment is Constant ==> forall|p: int|
            0 <= p < final(state).patches@.len() ==> (#[trigger] final(state).patches@[p]).1
                == old(state).patches@[p].1,
{
    let tick = state.tick;
    state.environment(&config.environment, tick);
    let reproductive_success = state.reproduction(config.selection_sigma);
    let death = state.adult_death(config.gamma);
    let diploid = state.diploid;
    proof {
        assert forall|p: int| 0 <= p < death@.len() implies #[trigger] death@[p] <= POP_LIMIT && (
        death@[p] > 0 ==> state.patches@[p].0.individuals@.len() > 0) by {
            crate::population::lemma_patch_le_total(state.patches@, p);
        }
    }
    let mut new_generation = state.density_regulation(reproductive_success, &death, diploid);
    if diploid {
        new_generation = State::recombination(new_generation, config.rec, state.loci);
    }
    new_generation = State::dispersal(new_generation, config.m);
    new_generation = State::mutation(
        new_generation,
        config.mutation_mu,
        config.mutation_sigma,
        config.mutation_step,
    );
    state.update(new_generation, death);
    proof {
        lemma_total_pop_congruent(final(state).patches@, old(state).patches@);
        assert forall|p: int| 0 <= p < state.patches@.len() implies retains_adults(
            state.patches@[p].0.individuals@,
            old(state).patches@[p].0.individuals@,
        ) by {
            let d = death@[p] as int;
            assert(state.patches@[p].0.individuals@.subrange(
                0,
                old(state).patches@[p].0.individuals@.len() - d,
            ).to_multiset().subset_of(old(state).patches@[p].0.individuals@.to_multiset()));
        }
    }
}

} // verus!
