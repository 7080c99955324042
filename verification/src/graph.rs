//! Down-sampled summary snapshots for the UI.
//!
//! Once per reporting interval the driver condenses the population into a
//! `GraphData`: the total population size, the phenotype variance and
//! range, and a bounded random sample of `(patch index, phenotype)`
//! pairs. A population of zero has no mean or extremes, so it yields no
//! snapshot at all — the driver treats that as a fatal condition.

use vstd::prelude::*;
use vstd::pervasive::VecAdditionalExecFns;

use crate::fixed::{GENOME_LIMIT, LOCUS_LIMIT, PHEN_LIMIT, POP_LIMIT, SCALE};
use crate::population::{lemma_take_submultiset, sum_fixed, total_pop, Patch};
use crate::rng::gen_index;
use crate::stages::lemma_swap_to_multiset;

verus! {

/// Largest number of `(patch, phenotype)` pairs a snapshot carries.
pub const SAMPLE_SIZE: usize = 100;

/// The `(patch index, phenotype)` pairs of one patch, in slot order.
pub open spec fn patch_phens(pr: (Patch, i64), p: usize) -> Seq<(usize, i64)> {
    Seq::new(
        pr.0.individuals@.len(),
        |i: int| (p, sum_fixed(pr.0.individuals@[i].loci@) as i64),
    )
}

/// The `(patch index, phenotype)` pairs of the whole population, patch by
/// patch.
pub open spec fn phen_flat(ps: Seq<(Patch, i64)>) -> Seq<(usize, i64)>
    decreases ps.len(),
{
    if ps.len() == 0 {
        Seq::empty()
    } else {
        phen_flat(ps.drop_last()) + patch_phens(ps.last(), (ps.len() - 1) as usize)
    }
}

/// The flattened phenotype list has one entry per individual.
pub proof fn lemma_phen_flat_len(ps: Seq<(Patch, i64)>)
    ensures
        phen_flat(ps).len() == total_pop(ps),
    decreases ps.len(),
{
    if ps.len() > 0 {
        lemma_phen_flat_len(ps.drop_last());
    }
}

/// Sum of the phenotypes in a flattened list.
pub open spec fn sum_phens(s: Seq<(usize, i64)>) -> int
    decreases s.len(),
{
    if s.len() == 0 {
        0
    } else {
        sum_phens(s.drop_last()) + s.last().1
    }
}

/// The mean phenotype, rounded toward zero.
pub open spec fn mean_phens(s: Seq<(usize, i64)>) -> int {
    let t = sum_phens(s);
    if t >= 0 {
        t / (s.len() as int)
    } else {
        -((-t) / (s.len() as int))
    }
}

/// Sum of squared deviations from `mean`, each divided by `SCALE` to stay
/// in fixed-point units.
pub open spec fn sum_sq_dev(s: Seq<(usize, i64)>, mean: int) -> int
    decreases s.len(),
{
    if s.len() == 0 {
        0
    } else {
        sum_sq_dev(s.drop_last(), mean) + ((s.last().1 - mean) * (s.last().1 - mean)) / (
        SCALE as int)
    }
}

/// The phenotype variance of a flattened list, in `SCALE` units.
pub open spec fn variance_phens(s: Seq<(usize, i64)>) -> int {
    sum_sq_dev(s, mean_phens(s)) / (s.len() as int)
}

/// The largest phenotype in a flattened list.
pub open spec fn max_phen(s: Seq<(usize, i64)>) -> int
    decreases s.len(),
{
    if s.len() <= 1 {
        s[0].1 as int
    } else {
        let m = max_phen(s.drop_last());
        if s.last().1 > m {
            s.last().1 as int
        } else {
            m
        }
    }
}

/// The smallest phenotype in a flattened list.
pub open spec fn min_phen(s: Seq<(usize, i64)>) -> int
    decreases s.len(),
{
    if s.len() <= 1 {
        s[0].1 as int
    } else {
        let m = min_phen(s.drop_last());
        if s.last().1 < m {
            s.last().1 as int
        } else {
            m
        }
    }
}

/// `e` occurs somewhere in `s`.
pub open spec fn pair_in(e: (usize, i64), s: Seq<(usize, i64)>) -> bool {
    exists|t: int| 0 <= t < s.len() && #[trigger] s[t] == e
}

/// A down-sampled summary of the population at one tick.
#[derive(Clone, Debug)]
pub struct GraphData {
    /// Total number of individuals.
    pub population: u64,
    /// Phenotype variance, in `SCALE` units.
    pub phenotype_variance: u128,
    /// Distance between the largest and the smallest phenotype.
    pub phenotype_distance: i64,
    /// A bounded sample of `(patch index, phenotype)` pairs.
    pub phenotype_sample: Vec<(usize, i64)>,
}

/// Condenses the patches into one snapshot, or nothing when the
/// population is empty: the exact total, the exact variance and range of
/// the phenotypes, and a random sample of at most `SAMPLE_SIZE` existing
/// `(patch index, phenotype)` pairs, drawn without replacement — the
/// sample is a sub-multiset of the population's pairs, so no individual
/// is reported twice.
pub fn extract_graph_data(patches: &Vec<(Patch, i64)>) -> (r: Option<GraphData>)
    requires
        forall|p: int, i: int|
            0 <= p < patches@.len() && 0 <= i < patches@[p].0.individuals@.len()
                ==> (#[trigger] patches@[p].0.individuals@[i]).loci@.len() <= GENOME_LIMIT,
        forall|p: int, i: int, j: int|
            0 <= p < patches@.len() && 0 <= i < patches@[p].0.individuals@.len() && 0 <= j
                < patches@[p].0.individuals@[i].loci@.len() ==> -LOCUS_LIMIT
                <= #[trigger] patches@[p].0.individuals@[i].loci@[j] <= LOCUS_LIMIT,
        total_pop(patches@) <= POP_LIMIT,
    ensures
        r is Some <==> total_pop(patches@) > 0,
        r matches Some(g) ==> ({
            &&& g.population == total_pop(patches@)
            &&& g.phenotype_variance == variance_phens(phen_flat(patches@))
            &&& g.phenotype_distance == max_phen(phen_flat(patches@)) - min_phen(
                phen_flat(patches@),
            )
            &&& g.phenotype_sample@.len() == (if total_pop(patches@) < SAMPLE_SIZE {
                total_pop(patches@)
            } else {
                SAMPLE_SIZE as int
            })
            &&& forall|e: int|
                0 <= e < g.phenotype_sample@.len() ==> pair_in(
                    #[trigger] g.phenotype_sample@[e],
                    phen_flat(patches@),
                )
            &&& g.phenotype_sample@.to_multiset().subset_of(phen_flat(patches@).to_multiset())
        }),
{
    proof {
        lemma_phen_flat_len(patches@);
    }
    let n = patches.len();
    let mut flat: Vec<(usize, i64)> = Vec::new();
    let mut p: usize = 0;
    while p < n
        invariant
            p <= n,
            n == patches@.len(),
            forall|q: int, i: int|
                0 <= q < n && 0 <= i < patches@[q].0.individuals@.len()
                    ==> (#[trigger] patches@[q].0.individuals@[i]).loci@.len() <= GENOME_LIMIT,
            forall|q: int, i: int, j: int|
                0 <= q < n && 0 <= i < patches@[q].0.individuals@.len() && 0 <= j
                    < patches@[q].0.individuals@[i].loci@.len() ==> -LOCUS_LIMIT
                    <= #[trigger] patches@[q].0.individuals@[i].loci@[j] <= LOCUS_LIMIT,
            flat@ == phen_flat(patches@.take(p as int)),
            forall|e: int|
                0 <= e < flat@.len() ==> -PHEN_LIMIT <= (#[trigger] flat@[e]).1 <= PHEN_LIMIT,
        decreases n - p,
    {
        let pr = &patches[p];
        let m = pr.0.individuals.len();
        let ghost base = flat@;
        let mut i: usize = 0;
        while i < m
            invariant
                i <= m,
                p < n,
                n == patches@.len(),
                m == patches@[p as int].0.individuals@.len(),
                forall|q: int, t: int|
                    0 <= q < n && 0 <= t < patches@[q].0.individuals@.len()
                        ==> (#[trigger] patches@[q].0.individuals@[t]).loci@.len()
                        <= GENOME_LIMIT,
                forall|q: int, t: int, j: int|
                    0 <= q < n && 0 <= t < patches@[q].0.individuals@.len() && 0 <= j
                        < patches@[q].0.individuals@[t].loci@.len() ==> -LOCUS_LIMIT
                        <= #[trigger] patches@[q].0.individuals@[t].loci@[j] <= LOCUS_LIMIT,
                pr == patches@[p as int],
                base == phen_flat(patches@.take(p as int)),
                flat@ =~= base + patch_phens(patches@[p as int], p).take(i as int),
                forall|e: int|
                    0 <= e < flat@.len() ==> -PHEN_LIMIT <= (#[trigger] flat@[e]).1
                        <= PHEN_LIMIT,
            decreases m - i,
        {
            let ind = &pr.0.individuals[i];
            let phen = ind.phenotype();
            flat.push((p, phen));
            proof {
                assert(patch_phens(patches@[p as int], p).take(i + 1) =~= patch_phens(
                    patches@[p as int],
                    p,
                ).take(i as int).push((p, phen)));
            }
            i = i + 1;
        }
        proof {
            assert(patches@.take(p + 1).drop_last() =~= patches@.take(p as int));
            assert(patches@.take(p + 1).last() == patches@[p as int]);
            assert(patch_phens(patches@[p as int], p).take(m as int) =~= patch_phens(
                patches@[p as int],
                p,
            ));
            assert(flat@ =~= phen_flat(patches@.take(p + 1)));
        }
        p = p + 1;
    }
    proof {
        assert(patches@.take(n as int) =~= patches@);
    }
    let len = flat.len();
    if len == 0 {
        return None;
    }

    let ghost fl = flat@;

    // Mean, rounded toward zero.
    let mut acc: i128 = 0;
    let mut e: usize = 0;
    while e < len
        invariant
            e <= len,
            len == fl.len() <= POP_LIMIT,
            flat@ == fl,
            forall|t: int| 0 <= t < fl.len() ==> -PHEN_LIMIT <= (#[trigger] fl[t]).1 <= PHEN_LIMIT,
            acc == sum_phens(fl.take(e as int)),
            -(e as int) * (PHEN_LIMIT as int) <= acc <= (e as int) * (PHEN_LIMIT as int),
        decreases len - e,
    {
        proof {
            assert(fl.take(e + 1).drop_last() =~= fl.take(e as int));
            assert(fl.take(e + 1).last() == fl[e as int]);
        }
        acc = acc + (flat[e].1 as i128);
        e = e + 1;
    }
    proof {
        assert(fl.take(len as int) =~= fl);
    }
    let neg = acc < 0;
    let mag: u128 = (if neg {
        -acc
    } else {
        acc
    }) as u128;
    let mdiv: u128 = mag / (len as u128);
    proof {
        vstd::arithmetic::div_mod::lemma_div_is_ordered(
            mag as int,
            (len as int) * (PHEN_LIMIT as int),
            len as int,
        );
        vstd::arithmetic::div_mod::lemma_div_multiples_vanish(PHEN_LIMIT as int, len as int);
        vstd::arithmetic::div_mod::lemma_div_pos_is_pos(mag as int, len as int);
    }
    let mean: i128 = if neg {
        -(mdiv as i128)
    } else {
        mdiv as i128
    };
    proof {
        assert(mean == mean_phens(fl));
        assert(-PHEN_LIMIT <= mean <= PHEN_LIMIT);
    }

    // Variance, in fixed-point units.
    let mut sq: u128 = 0;
    let mut e2: usize = 0;
    while e2 < len
        invariant
            e2 <= len,
            len == fl.len() <= POP_LIMIT,
            flat@ == fl,
            forall|t: int| 0 <= t < fl.len() ==> -PHEN_LIMIT <= (#[trigger] fl[t]).1 <= PHEN_LIMIT,
            -PHEN_LIMIT <= mean <= PHEN_LIMIT,
            sq == sum_sq_dev(fl.take(e2 as int), mean as int),
            sq <= (e2 as int) * 16_000_000_000_000_000_000_000_000,
        decreases len - e2,
    {
        proof {
            assert(fl.take(e2 + 1).drop_last() =~= fl.take(e2 as int));
            assert(fl.take(e2 + 1).last() == fl[e2 as int]);
        }
        let dev: i128 = (flat[e2].1 as i128) - mean;
        assert(dev * dev >= 0) by (nonlinear_arith);
        assert(dev * dev <= 16_000_000_000_000_000_000_000_000_000_000int) by (nonlinear_arith)
            requires
                -4_000_000_000_000_000 <= dev <= 4_000_000_000_000_000,
        ;
        let d2: u128 = (dev * dev) as u128;
        let q: u128 = d2 / (SCALE as u128);
        proof {
            vstd::arithmetic::div_mod::lemma_div_is_ordered(
                d2 as int,
                16_000_000_000_000_000_000_000_000_000_000int,
                SCALE as int,
            );
            vstd::arithmetic::div_mod::lemma_div_pos_is_pos(d2 as int, SCALE as int);
        }
        sq = sq + q;
        e2 = e2 + 1;
    }
    proof {
        assert(fl.take(len as int) =~= fl);
    }
    let variance: u128 = sq / (len as u128);
    proof {
        vstd::arithmetic::div_mod::lemma_div_pos_is_pos(sq as int, len as int);
        assert(variance == variance_phens(fl));
    }

    // Extremes.
    let mut maxv: i64 = flat[0].1;
    let mut minv: i64 = flat[0].1;
    let mut e3: usize = 1;
    proof {
        assert(fl.take(1).len() == 1);
        assert(fl.take(1)[0] == fl[0]);
    }
    while e3 < len
        invariant
            1 <= e3 <= len,
            len == fl.len(),
            flat@ == fl,
            forall|t: int| 0 <= t < fl.len() ==> -PHEN_LIMIT <= (#[trigger] fl[t]).1 <= PHEN_LIMIT,
            maxv == max_phen(fl.take(e3 as int)),
            minv == min_phen(fl.take(e3 as int)),
            -PHEN_LIMIT <= maxv <= PHEN_LIMIT,
            -PHEN_LIMIT <= minv <= PHEN_LIMIT,
        decreases len - e3,
    {
        proof {
            assert(fl.take(e3 + 1).drop_last() =~= fl.take(e3 as int));
            assert(fl.take(e3 + 1).last() == fl[e3 as int]);
        }
        let v = flat[e3].1;
        if v > maxv {
            maxv = v;
        }
        if v < minv {
            minv = v;
        }
        e3 = e3 + 1;
    }
    proof {
        assert(fl.take(len as int) =~= fl);
    }
    let distance = maxv - minv;

    // A bounded random sample of existing pairs, drawn without
    // replacement by a partial in-place permutation of a copy.
    let count = if len < SAMPLE_SIZE {
        len
    } else {
        SAMPLE_SIZE
    };
    let mut src: Vec<(usize, i64)> = Vec::new();
    let mut e4: usize = 0;
    while e4 < len
        invariant
            e4 <= len,
            len == fl.len(),
            flat@ == fl,
            src@ =~= fl.take(e4 as int),
        decreases len - e4,
    {
        src.push(flat[e4]);
        e4 = e4 + 1;
    }
    proof {
        assert(fl.take(len as int) =~= fl);
        assert(src@ == fl);
        assert forall|t: int| 0 <= t < src@.len() implies pair_in(#[trigger] src@[t], fl) by {
            assert(fl[t] == src@[t]);
        }
    }
    let mut c: usize = 0;
    while c < count
        invariant
            c <= count,
            count <= len,
            len == fl.len(),
            src@.len() == len,
            src@.to_multiset() == fl.to_multiset(),
            forall|t: int| 0 <= t < src@.len() ==> pair_in(#[trigger] src@[t], fl),
        decreases count - c,
    {
        let j = c + gen_index(len - c);
        let a = src[c];
        let b = src[j];
        let ghost before_swap = src@;
        src.set(c, b);
        src.set(j, a);
        proof {
            assert(src@ =~= before_swap.update(c as int, before_swap[j as int]).update(
                j as int,
                before_swap[c as int],
            ));
            lemma_swap_to_multiset(before_swap, c as int, j as int);
        }
        c = c + 1;
    }
    let mut sample: Vec<(usize, i64)> = Vec::new();
    let mut e5: usize = 0;
    while e5 < count
        invariant
            e5 <= count,
            count <= len,
            len == fl.len(),
            src@.len() == len,
            src@.to_multiset() == fl.to_multiset(),
            forall|t: int| 0 <= t < src@.len() ==> pair_in(#[trigger] src@[t], fl),
            sample@.len() == e5,
            sample@ =~= src@.take(e5 as int),
            forall|t: int| 0 <= t < e5 ==> pair_in(#[trigger] sample@[t], fl),
        decreases count - e5,
    {
        sample.push(src[e5]);
        e5 = e5 + 1;
    }
    proof {
        lemma_take_submultiset(src@, count as int);
        assert(sample@ == src@.take(count as int));
        assert(sample@.to_multiset().subset_of(fl.to_multiset()));
    }

    Some(
        GraphData {
            population: len as u64,
            phenotype_variance: variance,
            phenotype_distance: distance,
            phenotype_sample: sample,
        },
    )
}

} // verus!
