//! The initializer: builds the starting `State` from an `InitConfig`.
//!
//! The population recipes cross three distributions (uniform, constant,
//! normal) with three granularities: per individual (`_i`), per patch
//! (`_p`), and per population (no suffix, one locus vector shared by every
//! individual). Two alternating recipes assign `+1.0 / -1.0` per locus.
//! When diploid, the locus count is doubled before generation, so the two
//! homologous copies are drawn by the same rule.

use vstd::prelude::*;

use crate::config::{Environment, InitConfig, InitError, InitialPopulation};
use crate::environment::sine_pos_spec;
use crate::fixed::{sine_spec, GENOME_LIMIT, HALF, LOCUS_LIMIT, SCALE, TWO_THIRDS};
use crate::population::{
    lemma_total_pop_uniform, total_pop, Individual, Patch, State,
};
use crate::rng::{coin, normal, uniform_sym};

verus! {

/// The patch holds exactly `size` individuals, each carrying exactly
/// `loci` locus values of magnitude at most `bound`.
pub open spec fn patch_shaped(p: Patch, size: int, loci: int, bound: int) -> bool {
    &&& p.individuals@.len() == size
    &&& forall|i: int|
        0 <= i < size ==> (#[trigger] p.individuals@[i]).loci@.len() == loci
    &&& forall|i: int, j: int|
        0 <= i < size && 0 <= j < loci ==> -bound <= #[trigger] p.individuals@[i].loci@[j]
            <= bound
}

/// A shaped patch with an in-range bound is well formed.
pub proof fn lemma_shaped_wf(p: Patch, size: int, loci: int, bound: int)
    requires
        patch_shaped(p, size, loci, bound),
        0 <= loci,
        0 < bound <= LOCUS_LIMIT,
    ensures
        p.wf(loci as nat),
{
}

/// Magnitude bound for every locus an initializer can draw.
pub const INIT_BOUND: i64 = 6_000_000;

/// Within each of the patch's individuals, every locus carries one single
/// value.
pub open spec fn loci_constant_within(p: Patch) -> bool {
    forall|i: int, j1: int, j2: int|
        0 <= i < p.individuals@.len() && 0 <= j1 < p.individuals@[i].loci@.len() && 0 <= j2
            < p.individuals@[i].loci@.len() ==> #[trigger] p.individuals@[i].loci@[j1]
            == #[trigger] p.individuals@[i].loci@[j2]
}

/// Every individual of every patch carries the same locus vector.
pub open spec fn genome_shared_across(ps: Seq<(Patch, i64)>) -> bool {
    forall|p1: int, i1: int, p2: int, i2: int|
        0 <= p1 < ps.len() && 0 <= i1 < ps[p1].0.individuals@.len() && 0 <= p2 < ps.len() && 0
            <= i2 < ps[p2].0.individuals@.len() ==> #[trigger] ps[p1].0.individuals@[i1].loci@
            == #[trigger] ps[p2].0.individuals@[i2].loci@
}

/// Within each patch, every individual carries the same locus vector.
pub open spec fn genome_shared_within(ps: Seq<(Patch, i64)>) -> bool {
    forall|p: int, i1: int, i2: int|
        0 <= p < ps.len() && 0 <= i1 < ps[p].0.individuals@.len() && 0 <= i2
            < ps[p].0.individuals@.len() ==> #[trigger] ps[p].0.individuals@[i1].loci@
            == #[trigger] ps[p].0.individuals@[i2].loci@
}

/// Every locus of every individual is `+1.0` or `-1.0`.
pub open spec fn loci_unit_valued(ps: Seq<(Patch, i64)>) -> bool {
    forall|p: int, i: int, j: int|
        0 <= p < ps.len() && 0 <= i < ps[p].0.individuals@.len() && 0 <= j
            < ps[p].0.individuals@[i].loci@.len() ==> (#[trigger] ps[p].0.individuals@[i].loci@[
            j
        ]) == SCALE || ps[p].0.individuals@[i].loci@[j] == -SCALE
}

fn draw_uniform_loci(n: usize) -> (v: Vec<i64>)
    ensures
        v@.len() == n,
        forall|j: int| 0 <= j < n ==> -SCALE <= #[trigger] v@[j] <= SCALE,
{
    let mut out: Vec<i64> = Vec::new();
    let mut j: usize = 0;
    while j < n
        invariant
            j <= n,
            out@.len() == j,
            forall|k: int| 0 <= k < j ==> -SCALE <= #[trigger] out@[k] <= SCALE,
        decreases n - j,
    {
        out.push(uniform_sym(SCALE));
        j = j + 1;
    }
    out
}

fn draw_normal_loci(n: usize, sd: i64) -> (v: Vec<i64>)
    requires
        0 <= sd <= SCALE,
    ensures
        v@.len() == n,
        forall|j: int| 0 <= j < n ==> -INIT_BOUND <= #[trigger] v@[j] <= INIT_BOUND,
{
    let mut out: Vec<i64> = Vec::new();
    let mut j: usize = 0;
    while j < n
        invariant
            j <= n,
            0 <= sd <= SCALE,
            out@.len() == j,
            forall|k: int| 0 <= k < j ==> -INIT_BOUND <= #[trigger] out@[k] <= INIT_BOUND,
        decreases n - j,
    {
        out.push(normal(sd));
        j = j + 1;
    }
    out
}

fn draw_alternating_loci(n: usize, chance: i64) -> (v: Vec<i64>)
    ensures
        v@.len() == n,
        forall|j: int| 0 <= j < n ==> v@[j] == SCALE || #[trigger] v@[j] == -SCALE,
{
    let mut out: Vec<i64> = Vec::new();
    let mut j: usize = 0;
    while j < n
        invariant
            j <= n,
            out@.len() == j,
            forall|k: int| 0 <= k < j ==> out@[k] == SCALE || #[trigger] out@[k] == -SCALE,
        decreases n - j,
    {
        if coin(chance) {
            out.push(SCALE);
        } else {
            out.push(-SCALE);
        }
        j = j + 1;
    }
    out
}

fn repeat_locus(value: i64, n: usize) -> (v: Vec<i64>)
    ensures
        v@.len() == n,
        forall|j: int| 0 <= j < n ==> #[trigger] v@[j] == value,
{
    let mut out: Vec<i64> = Vec::new();
    let mut j: usize = 0;
    while j < n
        invariant
            j <= n,
            out@.len() == j,
            forall|k: int| 0 <= k < j ==> #[trigger] out@[k] == value,
        decreases n - j,
    {
        out.push(value);
        j = j + 1;
    }
    out
}

fn clone_individuals(proto: &Vec<i64>, n: usize) -> (r: Vec<Individual>)
    ensures
        r@.len() == n,
        forall|i: int| 0 <= i < n ==> (#[trigger] r@[i]).loci@ == proto@,
{
    let mut out: Vec<Individual> = Vec::new();
    let mut i: usize = 0;
    while i < n
        invariant
            i <= n,
            out@.len() == i,
            forall|k: int| 0 <= k < i ==> (#[trigger] out@[k]).loci@ == proto@,
        decreases n - i,
    {
        let copy = proto.clone();
        assert(copy@ =~= proto@);
        out.push(Individual { loci: copy });
        i = i + 1;
    }
    out
}

impl Patch {
    /// Per-population uniform initialization: one uniform locus vector on
    /// `[-1, 1]` shared by every individual of every patch.
    pub fn uniform(patches: usize, patch_size: usize, loci: usize) -> (r: Vec<Patch>)
        ensures
            r@.len() == patches,
            forall|p: int|
                0 <= p < patches ==> patch_shaped(
                    #[trigger] r@[p],
                    patch_size as int,
                    loci as int,
                    SCALE as int,
                ),
            forall|p1: int, i1: int, p2: int, i2: int|
                0 <= p1 < patches && 0 <= i1 < patch_size && 0 <= p2 < patches && 0 <= i2
                    < patch_size ==> #[trigger] r@[p1].individuals@[i1].loci@
                    == #[trigger] r@[p2].individuals@[i2].loci@,
    {
        let proto = draw_uniform_loci(loci);
        let mut out: Vec<Patch> = Vec::new();
        let mut p: usize = 0;
        while p < patches
            invariant
                p <= patches,
                out@.len() == p,
                proto@.len() == loci,
                forall|j: int| 0 <= j < loci ==> -SCALE <= #[trigger] proto@[j] <= SCALE,
                forall|k: int, i: int|
                    0 <= k < p && 0 <= i < patch_size
                        ==> (#[trigger] out@[k].individuals@[i]).loci@ == proto@,
                forall|k: int|
                    0 <= k < p ==> (#[trigger] out@[k]).individuals@.len() == patch_size,
            decreases patches - p,
        {
            out.push(Patch { individuals: clone_individuals(&proto, patch_size) });
            p = p + 1;
        }
        out
    }

    /// Per-patch uniform initialization: one uniform locus vector per
    /// patch, shared by that patch's individuals.
    pub fn uniform_p(patches: usize, patch_size: usize, loci: usize) -> (r: Vec<Patch>)
        ensures
            r@.len() == patches,
            forall|p: int|
                0 <= p < patches ==> patch_shaped(
                    #[trigger] r@[p],
                    patch_size as int,
                    loci as int,
                    SCALE as int,
                ),
            forall|p: int, i1: int, i2: int|
                0 <= p < patches && 0 <= i1 < patch_size && 0 <= i2 < patch_size
                    ==> #[trigger] r@[p].individuals@[i1].loci@
                    == #[trigger] r@[p].individuals@[i2].loci@,
    {
        let mut out: Vec<Patch> = Vec::new();
        let mut p: usize = 0;
        while p < patches
            invariant
                p <= patches,
                out@.len() == p,
                forall|k: int|
                    0 <= k < p ==> patch_shaped(
                        #[trigger] out@[k],
                        patch_size as int,
                        loci as int,
                        SCALE as int,
                    ),
                forall|k: int, i1: int, i2: int|
                    0 <= k < p && 0 <= i1 < patch_size && 0 <= i2 < patch_size
                        ==> #[trigger] out@[k].individuals@[i1].loci@
                        == #[trigger] out@[k].individuals@[i2].loci@,
            decreases patches - p,
        {
            let proto = draw_uniform_loci(loci);
            out.push(Patch { individuals: clone_individuals(&proto, patch_size) });
            p = p + 1;
        }
        out
    }

    /// Per-individual uniform initialization: an independent uniform locus
    /// vector for every individual.
    pub fn uniform_i(patches: usize, patch_size: usize, loci: usize) -> (r: Vec<Patch>)
        ensures
            r@.len() == patches,
            forall|p: int|
                0 <= p < patches ==> patch_shaped(
                    #[trigger] r@[p],
                    patch_size as int,
                    loci as int,
                    SCALE as int,
                ),
    {
        let mut out: Vec<Patch> = Vec::new();
        let mut p: usize = 0;
        while p < patches
            invariant
                p <= patches,
                out@.len() == p,
                forall|k: int|
                    0 <= k < p ==> patch_shaped(
                        #[trigger] out@[k],
                        patch_size as int,
                        loci as int,
                        SCALE as int,
                    ),
            decreases patches - p,
        {
            let mut inds: Vec<Individual> = Vec::new();
            let mut i: usize = 0;
            while i < patch_size
                invariant
                    i <= patch_size,
                    inds@.len() == i,
                    forall|k: int|
                        0 <= k < i ==> (#[trigger] inds@[k]).loci@.len() == loci,
                    forall|k: int, j: int|
                        0 <= k < i && 0 <= j < loci ==> -SCALE
                            <= #[trigger] inds@[k].loci@[j] <= SCALE,
                decreases patch_size - i,
            {
                inds.push(Individual { loci: draw_uniform_loci(loci) });
                i = i + 1;
            }
            out.push(Patch { individuals: inds });
            p = p + 1;
        }
        out
    }

    /// Per-population constant initialization: one uniform value on
    /// `[-1, 1]`, repeated over every locus of every individual.
    pub fn constant(patches: usize, patch_size: usize, loci_len: usize) -> (r: Vec<Patch>)
        ensures
            r@.len() == patches,
            forall|p: int|
                0 <= p < patches ==> patch_shaped(
                    #[trigger] r@[p],
                    patch_size as int,
                    loci_len as int,
                    SCALE as int,
                ),
            forall|p1: int, i1: int, p2: int, i2: int|
                0 <= p1 < patches && 0 <= i1 < patch_size && 0 <= p2 < patches && 0 <= i2
                    < patch_size ==> #[trigger] r@[p1].individuals@[i1].loci@
                    == #[trigger] r@[p2].individuals@[i2].loci@,
            forall|p: int| 0 <= p < patches ==> loci_constant_within(#[trigger] r@[p]),
    {
        let value = uniform_sym(SCALE);
        let proto = repeat_locus(value, loci_len);
        let mut out: Vec<Patch> = Vec::new();
        let mut p: usize = 0;
        while p < patches
            invariant
                p <= patches,
                out@.len() == p,
                proto@.len() == loci_len,
                forall|j: int| 0 <= j < loci_len ==> #[trigger] proto@[j] == value,
                -SCALE <= value <= SCALE,
                forall|k: int, i: int|
                    0 <= k < p && 0 <= i < patch_size
                        ==> (#[trigger] out@[k].individuals@[i]).loci@ == proto@,
                forall|k: int|
                    0 <= k < p ==> (#[trigger] out@[k]).individuals@.len() == patch_size,
            decreases patches - p,
        {
            out.push(Patch { individuals: clone_individuals(&proto, patch_size) });
            p = p + 1;
        }
        proof {
            assert forall|pp: int| 0 <= pp < patches implies loci_constant_within(
                #[trigger] out@[pp],
            ) by {
                assert forall|i: int, j1: int, j2: int|
                    0 <= i < out@[pp].individuals@.len() && 0 <= j1
                        < out@[pp].individuals@[i].loci@.len() && 0 <= j2
                        < out@[pp].individuals@[i].loci@.len() implies out@[pp].individuals@[
                    i
                ].loci@[j1] == out@[pp].individuals@[i].loci@[j2] by {
                    assert(out@[pp].individuals@[i].loci@ == proto@);
                    assert(proto@[j1] == value);
                    assert(proto@[j2] == value);
                }
            }
        }
        out
    }

    /// Per-patch constant initialization: one uniform value per patch,
    /// repeated over every locus of that patch's individuals.
    pub fn constant_p(patches: usize, patch_size: usize, loci_len: usize) -> (r: Vec<Patch>)
        ensures
            r@.len() == patches,
            forall|p: int|
                0 <= p < patches ==> patch_shaped(
                    #[trigger] r@[p],
                    patch_size as int,
                    loci_len as int,
                    SCALE as int,
                ),
            forall|p: int, i1: int, i2: int|
                0 <= p < patches && 0 <= i1 < patch_size && 0 <= i2 < patch_size
                    ==> #[trigger] r@[p].individuals@[i1].loci@
                    == #[trigger] r@[p].individuals@[i2].loci@,
            forall|p: int| 0 <= p < patches ==> loci_constant_within(#[trigger] r@[p]),
    {
        let mut out: Vec<Patch> = Vec::new();
        let mut p: usize = 0;
        while p < patches
            invariant
                p <= patches,
                out@.len() == p,
                forall|k: int|
                    0 <= k < p ==> patch_shaped(
                        #[trigger] out@[k],
                        patch_size as int,
                        loci_len as int,
                        SCALE as int,
                    ),
                forall|k: int, i1: int, i2: int|
                    0 <= k < p && 0 <= i1 < patch_size && 0 <= i2 < patch_size
                        ==> #[trigger] out@[k].individuals@[i1].loci@
                        == #[trigger] out@[k].individuals@[i2].loci@,
                forall|k: int| 0 <= k < p ==> loci_constant_within(#[trigger] out@[k]),
            decreases patches - p,
        {
            let value = uniform_sym(SCALE);
            let proto = repeat_locus(value, loci_len);
            let fresh = Patch { individuals: clone_individuals(&proto, patch_size) };
            proof {
                assert forall|i: int, j1: int, j2: int|
                    0 <= i < fresh.individuals@.len() && 0 <= j1
                        < fresh.individuals@[i].loci@.len() && 0 <= j2
                        < fresh.individuals@[i].loci@.len() implies fresh.individuals@[i].loci@[
                    j1
                ] == fresh.individuals@[i].loci@[j2] by {
                    assert(fresh.individuals@[i].loci@ == proto@);
                    assert(proto@[j1] == value);
                    assert(proto@[j2] == value);
                }
                assert(loci_constant_within(fresh));
            }
            out.push(fresh);
            p = p + 1;
        }
        out
    }

    /// Per-individual constant initialization: an independent uniform
    /// value for every individual, repeated over its loci — so within one
    /// individual every locus is equal, while individuals may differ.
    pub fn constant_i(patches: usize, patch_size: usize, loci_len: usize) -> (r: Vec<Patch>)
        ensures
            r@.len() == patches,
            forall|p: int|
                0 <= p < patches ==> patch_shaped(
                    #[trigger] r@[p],
                    patch_size as int,
                    loci_len as int,
                    SCALE as int,
                ),
            forall|p: int| 0 <= p < patches ==> loci_constant_within(#[trigger] r@[p]),
    {
        let mut out: Vec<Patch> = Vec::new();
        let mut p: usize = 0;
        while p < patches
            invariant
                p <= patches,
                out@.len() == p,
                forall|k: int|
                    0 <= k < p ==> patch_shaped(
                        #[trigger] out@[k],
                        patch_size as int,
                        loci_len as int,
                        SCALE as int,
                    ),
                forall|k: int| 0 <= k < p ==> loci_constant_within(#[trigger] out@[k]),
            decreases patches - p,
        {
            let mut inds: Vec<Individual> = Vec::new();
            let mut i: usize = 0;
            while i < patch_size
                invariant
                    i <= patch_size,
                    inds@.len() == i,
                    forall|k: int|
                        0 <= k < i ==> (#[trigger] inds@[k]).loci@.len() == loci_len,
                    forall|k: int, j: int|
                        0 <= k < i && 0 <= j < loci_len ==> -SCALE
                            <= #[trigger] inds@[k].loci@[j] <= SCALE,
                    forall|k: int, j1: int, j2: int|
                        0 <= k < i && 0 <= j1 < loci_len && 0 <= j2 < loci_len
                            ==> #[trigger] inds@[k].loci@[j1] == #[trigger] inds@[k].loci@[j2],
                decreases patch_size - i,
            {
                let value = uniform_sym(SCALE);
                inds.push(Individual { loci: repeat_locus(value, loci_len) });
                i = i + 1;
            }
            let fresh = Patch { individuals: inds };
            proof {
                assert(loci_constant_within(fresh));
            }
            out.push(fresh);
            p = p + 1;
        }
        out
    }

    /// Per-population normal initialization: one normal locus vector with
    /// standard deviation `1 / loci`, shared by every individual.
    pub fn normal(patches: usize, patch_size: usize, loci: usize) -> (r: Vec<Patch>)
        requires
            1 <= loci <= GENOME_LIMIT,
        ensures
            r@.len() == patches,
            forall|p: int|
                0 <= p < patches ==> patch_shaped(
                    #[trigger] r@[p],
                    patch_size as int,
                    loci as int,
                    INIT_BOUND as int,
                ),
            forall|p1: int, i1: int, p2: int, i2: int|
                0 <= p1 < patches && 0 <= i1 < patch_size && 0 <= p2 < patches && 0 <= i2
                    < patch_size ==> #[trigger] r@[p1].individuals@[i1].loci@
                    == #[trigger] r@[p2].individuals@[i2].loci@,
    {
        let sd = (SCALE as u64 / (loci as u64)) as i64;
        proof {
            vstd::arithmetic::div_mod::lemma_div_nonincreasing(SCALE as int, loci as int);
            vstd::arithmetic::div_mod::lemma_div_pos_is_pos(SCALE as int, loci as int);
        }
        let proto = draw_normal_loci(loci, sd);
        let mut out: Vec<Patch> = Vec::new();
        let mut p: usize = 0;
        while p < patches
            invariant
                p <= patches,
                out@.len() == p,
                proto@.len() == loci,
                forall|j: int| 0 <= j < loci ==> -INIT_BOUND <= #[trigger] proto@[j] <= INIT_BOUND,
                forall|k: int, i: int|
                    0 <= k < p && 0 <= i < patch_size
                        ==> (#[trigger] out@[k].individuals@[i]).loci@ == proto@,
                forall|k: int|
                    0 <= k < p ==> (#[trigger] out@[k]).individuals@.len() == patch_size,
            decreases patches - p,
        {
            out.push(Patch { individuals: clone_individuals(&proto, patch_size) });
            p = p + 1;
        }
        out
    }

    /// Per-patch normal initialization: one standard-normal locus vector
    /// per patch, shared by that patch's individuals.
    pub fn normal_p(patches: usize, patch_size: usize, loci: usize) -> (r: Vec<Patch>)
        ensures
            r@.len() == patches,
            forall|p: int|
                0 <= p < patches ==> patch_shaped(
                    #[trigger] r@[p],
                    patch_size as int,
                    loci as int,
                    INIT_BOUND as int,
                ),
            forall|p: int, i1: int, i2: int|
                0 <= p < patches && 0 <= i1 < patch_size && 0 <= i2 < patch_size
                    ==> #[trigger] r@[p].individuals@[i1].loci@
                    == #[trigger] r@[p].individuals@[i2].loci@,
    {
        let mut out: Vec<Patch> = Vec::new();
        let mut p: usize = 0;
        while p < patches
            invariant
                p <= patches,
                out@.len() == p,
                forall|k: int|
                    0 <= k < p ==> patch_shaped(
                        #[trigger] out@[k],
                        patch_size as int,
                        loci as int,
                        INIT_BOUND as int,
                    ),
                forall|k: int, i1: int, i2: int|
                    0 <= k < p && 0 <= i1 < patch_size && 0 <= i2 < patch_size
                        ==> #[trigger] out@[k].individuals@[i1].loci@
                        == #[trigger] out@[k].individuals@[i2].loci@,
            decreases patches - p,
        {
            let proto = draw_normal_loci(loci, SCALE);
            out.push(Patch { individuals: clone_individuals(&proto, patch_size) });
            p = p + 1;
        }
        out
    }

    /// Per-individual normal initialization: an independent standard-normal
    /// locus vector for every individual.
    pub fn normal_i(patches: usize, patch_size: usize, loci: usize) -> (r: Vec<Patch>)
        ensures
            r@.len() == patches,
            forall|p: int|
                0 <= p < patches ==> patch_shaped(
                    #[trigger] r@[p],
                    patch_size as int,
                    loci as int,
                    INIT_BOUND as int,
                ),
    {
        let mut out: Vec<Patch> = Vec::new();
        let mut p: usize = 0;
        while p < patches
            invariant
                p <= patches,
                out@.len() == p,
                forall|k: int|
                    0 <= k < p ==> patch_shaped(
                        #[trigger] out@[k],
                        patch_size as int,
                        loci as int,
                        INIT_BOUND as int,
                    ),
            decreases patches - p,
        {
            let mut inds: Vec<Individual> = Vec::new();
            let mut i: usize = 0;
            while i < patch_size
                invariant
                    i <= patch_size,
                    inds@.len() == i,
                    forall|k: int|
                        0 <= k < i ==> (#[trigger] inds@[k]).loci@.len() == loci,
                    forall|k: int, j: int|
                        0 <= k < i && 0 <= j < loci ==> -INIT_BOUND
                            <= #[trigger] inds@[k].loci@[j] <= INIT_BOUND,
                decreases patch_size - i,
            {
                inds.push(Individual { loci: draw_normal_loci(loci, SCALE) });
                i = i + 1;
            }
            out.push(Patch { individuals: inds });
            p = p + 1;
        }
        out
    }

    /// Alternating initialization: every locus of every individual is
    /// `+1.0` with probability `chance` and `-1.0` otherwise.
    pub fn alternating(patches: usize, patch_size: usize, loci: usize, chance: i64) -> (r: Vec<
        Patch,
    >)
        ensures
            r@.len() == patches,
            forall|p: int|
                0 <= p < patches ==> patch_shaped(
                    #[trigger] r@[p],
                    patch_size as int,
                    loci as int,
                    SCALE as int,
                ),
            forall|p: int, i: int, j: int|
                0 <= p < patches && 0 <= i < patch_size && 0 <= j < loci
                    ==> #[trigger] r@[p].individuals@[i].loci@[j] == SCALE
                    || r@[p].individuals@[i].loci@[j] == -SCALE,
    {
        let mut out: Vec<Patch> = Vec::new();
        let mut p: usize = 0;
        while p < patches
            invariant
                p <= patches,
                out@.len() == p,
                forall|k: int|
                    0 <= k < p ==> patch_shaped(
                        #[trigger] out@[k],
                        patch_size as int,
                        loci as int,
                        SCALE as int,
                    ),
                forall|k: int, i: int, j: int|
                    0 <= k < p && 0 <= i < patch_size && 0 <= j < loci
                        ==> #[trigger] out@[k].individuals@[i].loci@[j] == SCALE
                        || out@[k].individuals@[i].loci@[j] == -SCALE,
            decreases patches - p,
        {
            let mut inds: Vec<Individual> = Vec::new();
            let mut i: usize = 0;
            while i < patch_size
                invariant
                    i <= patch_size,
                    inds@.len() == i,
                    forall|k: int|
                        0 <= k < i ==> (#[trigger] inds@[k]).loci@.len() == loci,
                    forall|k: int, j: int|
                        0 <= k < i && 0 <= j < loci ==> #[trigger] inds@[k].loci@[j] == SCALE
                            || inds@[k].loci@[j] == -SCALE,
                decreases patch_size - i,
            {
                inds.push(Individual { loci: draw_alternating_loci(loci, chance) });
                i = i + 1;
            }
            out.push(Patch { individuals: inds });
            p = p + 1;
        }
        out
    }
}

/// Builds the starting state. Rejects an invalid configuration with the
/// first failing clause; otherwise the state starts at tick zero with
/// `patches` patches of `individuals / patches` individuals each, every
/// individual carrying the run's uniform genome length. The chosen
/// recipe's structure carries over: per-population recipes share one
/// locus vector everywhere, per-patch recipes one per patch, constant
/// recipes repeat one value within each individual, and alternating
/// recipes draw unit loci. The initial optima follow the `Environment`
/// variant: alternating variants start at `+0.5` or `-0.5`, and `Sine`
/// starts on the closed-form wave at tick zero.
pub fn init(init_config: InitConfig, env: Environment) -> (r: Result<State, InitError>)
    ensures
        r is Ok <==> init_config.valid(),
        r is Err ==> r->Err_0 == init_config.first_error(),
        r is Ok ==> ({
            let s = r->Ok_0;
            &&& s.wf()
            &&& s.tick == 0
            &&& s.diploid == init_config.diploid
            &&& s.loci == init_config.genome_len()
            &&& s.patches@.len() == init_config.patches
            &&& forall|p: int|
                0 <= p < s.patches@.len() ==> (#[trigger] s.patches@[p]).0.individuals@.len()
                    == init_config.individuals as int / init_config.patches as int
            &&& total_pop(s.patches@) == init_config.individuals
            &&& ((init_config.kind is Uniform || init_config.kind is Constant
                || init_config.kind is Normal) ==> genome_shared_across(s.patches@))
            &&& ((init_config.kind is UniformP || init_config.kind is ConstantP
                || init_config.kind is NormalP) ==> genome_shared_within(s.patches@))
            &&& ((init_config.kind is ConstantI || init_config.kind is ConstantP
                || init_config.kind is Constant) ==> forall|p: int|
                0 <= p < s.patches@.len() ==> loci_constant_within((#[trigger] s.patches@[p]).0))
            &&& ((init_config.kind is AlternatingHalf || init_config.kind is AlternatingThird)
                ==> loci_unit_valued(s.patches@))
            &&& ((env is AlternatingHalf || env is AlternatingThird) ==> forall|p: int|
                0 <= p < s.patches@.len() ==> (#[trigger] s.patches@[p]).1 == HALF
                    || s.patches@[p].1 == -HALF)
            &&& (env is Sine ==> forall|p: int|
                0 <= p < s.patches@.len() ==> (#[trigger] s.patches@[p]).1 == sine_spec(
                    sine_pos_spec(p, init_config.patches as int, 0),
                ))
        }),
{
    if let Err(e) = init_config.check() {
        return Err(e);
    }
    let patches = init_config.patches;
    let individuals = init_config.individuals;
    let genome = if init_config.diploid {
        2 * init_config.loci
    } else {
        init_config.loci
    };
    let patch_size = individuals / patches;

    let p: Vec<Patch> = match init_config.kind {
        InitialPopulation::UniformI => Patch::uniform_i(patches, patch_size, genome),
        InitialPopulation::UniformP => Patch::uniform_p(patches, patch_size, genome),
        InitialPopulation::Uniform => Patch::uniform(patches, patch_size, genome),
        InitialPopulation::ConstantI => Patch::constant_i(patches, patch_size, genome),
        InitialPopulation::ConstantP => Patch::constant_p(patches, patch_size, genome),
        InitialPopulation::Constant => Patch::constant(patches, patch_size, genome),
        InitialPopulation::NormalI => Patch::normal_i(patches, patch_size, genome),
        InitialPopulation::NormalP => Patch::normal_p(patches, patch_size, genome),
        InitialPopulation::Normal => Patch::normal(patches, patch_size, genome),
        InitialPopulation::AlternatingHalf => Patch::alternating(
            patches,
            patch_size,
            genome,
            HALF,
        ),
        InitialPopulation::AlternatingThird => Patch::alternating(
            patches,
            patch_size,
            genome,
            TWO_THIRDS,
        ),
    };

    let e: Vec<i64> = match env {
        Environment::Random => Patch::random_env(patches),
        Environment::AlternatingHalf => Patch::alternating_env(patches, HALF),
        Environment::AlternatingThird => Patch::alternating_env(patches, TWO_THIRDS),
        Environment::Sine => Patch::sine_env(patches, 0),
        Environment::RandomWalk => Patch::random_walk_env(repeat_locus(0, patches)),
        Environment::Constant | Environment::ConstantWithJumps => Patch::random_env(patches),
    };

    let mut pairs: Vec<(Patch, i64)> = Vec::new();
    let mut rest = p;
    let ghost all = rest@;
    let mut i: usize = 0;
    while i < patches
        invariant
            i <= patches,
            pairs@.len() == i,
            all.len() == patches,
            e@.len() == patches,
            rest@ =~= all.subrange(i as int, patches as int),
            forall|k: int|
                0 <= k < i ==> (#[trigger] pairs@[k]).0 == all[k] && pairs@[k].1 == e@[k],
        decreases patches - i,
    {
        let patch = rest.remove(0);
        pairs.push((patch, e[i]));
        i = i + 1;
    }

    let state = State { tick: 0, patches: pairs, diploid: init_config.diploid, loci: genome };

    proof {
        assert forall|q: int| 0 <= q < state.patches@.len() implies (
        #[trigger] state.patches@[q]).0.wf(genome as nat) by {
            if patch_shaped(state.patches@[q].0, patch_size as int, genome as int, SCALE as int) {
                lemma_shaped_wf(
                    state.patches@[q].0,
                    patch_size as int,
                    genome as int,
                    SCALE as int,
                );
            } else {
                lemma_shaped_wf(
                    state.patches@[q].0,
                    patch_size as int,
                    genome as int,
                    INIT_BOUND as int,
                );
            }
        }
        lemma_total_pop_uniform(state.patches@, patch_size as int);
        vstd::arithmetic::div_mod::lemma_fundamental_div_mod(individuals as int, patches as int);
        assert((patches as int) * (individuals as int / patches as int) == (patches as int)
            * (patch_size as int));
        if init_config.kind is Uniform || init_config.kind is Constant || init_config.kind
            is Normal {
            assert forall|p1: int, i1: int, p2: int, i2: int|
                0 <= p1 < state.patches@.len() && 0 <= i1
                    < state.patches@[p1].0.individuals@.len() && 0 <= p2 < state.patches@.len()
                    && 0 <= i2 < state.patches@[p2].0.individuals@.len() implies
                #[trigger] state.patches@[p1].0.individuals@[i1].loci@
                == #[trigger] state.patches@[p2].0.individuals@[i2].loci@ by {
                assert(state.patches@[p1].0 == all[p1]);
                assert(state.patches@[p2].0 == all[p2]);
                assert(all[p1].individuals@[i1].loci@
                    == state.patches@[p1].0.individuals@[i1].loci@);
                assert(all[p2].individuals@[i2].loci@
                    == state.patches@[p2].0.individuals@[i2].loci@);
            }
            assert(genome_shared_across(state.patches@));
        }
        if init_config.kind is UniformP || init_config.kind is ConstantP || init_config.kind
            is NormalP {
            assert forall|p: int, i1: int, i2: int|
                0 <= p < state.patches@.len() && 0 <= i1 < state.patches@[p].0.individuals@.len()
                    && 0 <= i2 < state.patches@[p].0.individuals@.len() implies
                #[trigger] state.patches@[p].0.individuals@[i1].loci@
                == #[trigger] state.patches@[p].0.individuals@[i2].loci@ by {
                assert(state.patches@[p].0 == all[p]);
                assert(all[p].individuals@[i1].loci@
                    == state.patches@[p].0.individuals@[i1].loci@);
                assert(all[p].individuals@[i2].loci@
                    == state.patches@[p].0.individuals@[i2].loci@);
            }
            assert(genome_shared_within(state.patches@));
        }
        if init_config.kind is ConstantI || init_config.kind is ConstantP || init_config.kind
            is Constant {
            assert forall|p: int| 0 <= p < state.patches@.len() implies loci_constant_within(
                (#[trigger] state.patches@[p]).0,
            ) by {
                assert(state.patches@[p].0 == all[p]);
                assert(loci_constant_within(all[p]));
            }
        }
        if init_config.kind is AlternatingHalf || init_config.kind is AlternatingThird {
            assert forall|p: int, i: int, j: int|
                0 <= p < state.patches@.len() && 0 <= i < state.patches@[p].0.individuals@.len()
                    && 0 <= j < state.patches@[p].0.individuals@[i].loci@.len() implies (
            #[trigger] state.patches@[p].0.individuals@[i].loci@[j]) == SCALE
                || state.patches@[p].0.individuals@[i].loci@[j] == -SCALE by {
                assert(state.patches@[p].0 == all[p]);
                assert(all[p].individuals@[i].loci@[j]
                    == state.patches@[p].0.individuals@[i].loci@[j]);
            }
            assert(loci_unit_valued(state.patches@));
        }
        if env is AlternatingHalf || env is AlternatingThird {
            assert forall|p: int| 0 <= p < state.patches@.len() implies ((
            #[trigger] state.patches@[p]).1 == HALF || state.patches@[p].1 == -HALF) by {
                assert(state.patches@[p].1 == e@[p]);
            }
        }
        if env is Sine {
            assert forall|p: int|
                0 <= p < state.patches@.len() implies (#[trigger] state.patches@[p]).1
                == sine_spec(sine_pos_spec(p, patches as int, 0)) by {
                assert(state.patches@[p].1 == e@[p]);
            }
        }
    }

    Ok(state)
}

} // verus!
