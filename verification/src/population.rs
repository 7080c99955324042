//! The population model: individuals, patches, and the whole run state.
//!
//! An individual is an ordered sequence of fixed-point locus values; its
//! phenotype is their sum. A patch owns a sub-population and, inside
//! `State`, is paired with its scalar environment. `State::wf` is the run
//! invariant every stage of the algorithm preserves: the locus count is
//! uniform over every individual of every patch, locus values and
//! environments stay within their fixed bounds, and the total population
//! stays within `POP_LIMIT`.

use vstd::prelude::*;

use crate::fixed::{GENOME_LIMIT, LOCUS_LIMIT, PATCH_LIMIT, PHEN_LIMIT, POP_LIMIT, SCALE};

verus! {

/// One organism: an ordered, fixed-length sequence of locus values.
#[derive(Clone, Debug)]
pub struct Individual {
    pub loci: Vec<i64>,
}

/// Sum of a sequence of fixed-point values.
pub open spec fn sum_fixed(s: Seq<i64>) -> int
    decreases s.len(),
{
    if s.len() == 0 {
        0
    } else {
        sum_fixed(s.drop_last()) + s.last()
    }
}

/// A prefix of a sequence of bounded non-negative values sums to at most
/// the whole, and partial sums grow with the prefix.
pub proof fn lemma_sum_fixed_take_le(s: Seq<i64>, i: int)
    requires
        0 <= i <= s.len(),
        forall|k: int| 0 <= k < s.len() ==> #[trigger] s[k] >= 0,
    ensures
        sum_fixed(s.take(i)) <= sum_fixed(s),
    decreases s.len() - i,
{
    if i < s.len() {
        assert(s.take(i + 1).drop_last() =~= s.take(i));
        assert(s.take(i + 1).last() == s[i]);
        lemma_sum_fixed_take_le(s, i + 1);
    } else {
        assert(s.take(i) =~= s);
    }
}

impl Individual {
    /// The individual carries exactly `loci` locus values, each within
    /// `[-LOCUS_LIMIT, LOCUS_LIMIT]`.
    pub open spec fn wf(&self, loci: nat) -> bool {
        &&& self.loci@.len() == loci
        &&& forall|j: int|
            0 <= j < self.loci@.len() ==> -LOCUS_LIMIT <= #[trigger] self.loci@[j] <= LOCUS_LIMIT
    }

    /// The additive trait value: the sum of all loci.
    pub fn phenotype(&self) -> (p: i64)
        requires
            self.loci@.len() <= GENOME_LIMIT,
            forall|j: int|
                0 <= j < self.loci@.len() ==> -LOCUS_LIMIT <= #[trigger] self.loci@[j]
                    <= LOCUS_LIMIT,
        ensures
            p == sum_fixed(self.loci@),
            -PHEN_LIMIT <= p <= PHEN_LIMIT,
    {
        let n = self.loci.len();
        let mut acc: i64 = 0;
        let mut i: usize = 0;
        while i < n
            invariant
                i <= n,
                n == self.loci@.len() <= GENOME_LIMIT,
                forall|j: int|
                    0 <= j < self.loci@.len() ==> -LOCUS_LIMIT <= #[trigger] self.loci@[j]
                        <= LOCUS_LIMIT,
                acc == sum_fixed(self.loci@.take(i as int)),
                -(i as int) * LOCUS_LIMIT <= acc <= (i as int) * LOCUS_LIMIT,
            decreases n - i,
        {
            proof {
                assert(self.loci@.take(i + 1).drop_last() =~= self.loci@.take(i as int));
                assert(self.loci@.take(i + 1).last() == self.loci@[i as int]);
            }
            acc = acc + self.loci[i];
            i = i + 1;
        }
        proof {
            assert(self.loci@.take(n as int) =~= self.loci@);
        }
        acc
    }
}

/// A local deme: a resizable collection of individuals.
#[derive(Clone, Debug)]
pub struct Patch {
    pub individuals: Vec<Individual>,
}

impl Patch {
    /// Every individual of the patch carries exactly `loci` bounded loci.
    pub open spec fn wf(&self, loci: nat) -> bool {
        forall|i: int|
            0 <= i < self.individuals@.len() ==> (#[trigger] self.individuals@[i]).wf(loci)
    }

    pub fn new(individuals: Vec<Individual>) -> (p: Patch)
        ensures
            p.individuals == individuals,
    {
        Patch { individuals }
    }

    /// Moves every individual of `other` to the end of this patch.
    pub fn extend(&mut self, other: Patch)
        ensures
            final(self).individuals@ == old(self).individuals@ + other.individuals@,
    {
        let mut moved = other.individuals;
        self.individuals.append(&mut moved);
    }
}

/// The whole run: a tick counter, one `(patch, environment)` pair per
/// patch, the ploidy flag, and the uniform per-individual locus count.
#[derive(Clone, Debug)]
pub struct State {
    pub tick: u64,
    pub patches: Vec<(Patch, i64)>,
    pub diploid: bool,
    pub loci: usize,
}

/// Total number of individuals over a sequence of patch pairs.
pub open spec fn total_pop(ps: Seq<(Patch, i64)>) -> int
    decreases ps.len(),
{
    if ps.len() == 0 {
        0
    } else {
        total_pop(ps.drop_last()) + ps.last().0.individuals@.len()
    }
}

pub proof fn lemma_total_pop_nonneg(ps: Seq<(Patch, i64)>)
    ensures
        total_pop(ps) >= 0,
    decreases ps.len(),
{
    if ps.len() > 0 {
        lemma_total_pop_nonneg(ps.drop_last());
    }
}

/// Each patch holds at most the whole population.
pub proof fn lemma_patch_le_total(ps: Seq<(Patch, i64)>, i: int)
    requires
        0 <= i < ps.len(),
    ensures
        ps[i].0.individuals@.len() <= total_pop(ps),
    decreases ps.len(),
{
    if i == ps.len() - 1 {
        lemma_total_pop_nonneg(ps.drop_last());
    } else {
        lemma_patch_le_total(ps.drop_last(), i);
    }
}

/// A run of equally sized patches holds exactly `count * size`
/// individuals.
pub proof fn lemma_total_pop_uniform(ps: Seq<(Patch, i64)>, size: int)
    requires
        forall|i: int| 0 <= i < ps.len() ==> (#[trigger] ps[i]).0.individuals@.len() == size,
    ensures
        total_pop(ps) == ps.len() * size,
    decreases ps.len(),
{
    if ps.len() == 0 {
        assert(ps.len() * size == 0) by (nonlinear_arith)
            requires
                ps.len() == 0,
        ;
    } else {
        assert(forall|i: int|
            0 <= i < ps.drop_last().len() ==> (#[trigger] ps.drop_last()[i]) == ps[i]);
        lemma_total_pop_uniform(ps.drop_last(), size);
        assert(ps.last() == ps[ps.len() - 1]);
        assert((ps.len() - 1) * size + size == ps.len() * size) by (nonlinear_arith);
    }
}

/// A prefix of a sequence contributes a sub-multiset of the whole.
pub proof fn lemma_take_submultiset<A>(s: Seq<A>, k: int)
    requires
        0 <= k <= s.len(),
    ensures
        s.take(k).to_multiset().subset_of(s.to_multiset()),
{
    broadcast use vstd::multiset::group_multiset_axioms;

    assert(s =~= s.take(k) + s.skip(k));
    vstd::seq_lib::lemma_multiset_commutative(s.take(k), s.skip(k));
    assert forall|v: A|
        s.take(k).to_multiset().count(v) <= s.to_multiset().count(v) by {
        assert(s.to_multiset().count(v) == s.take(k).to_multiset().count(v) + s.skip(
            k,
        ).to_multiset().count(v));
    }
}

/// The total population only depends on the patch sizes.
pub proof fn lemma_total_pop_congruent(ps1: Seq<(Patch, i64)>, ps2: Seq<(Patch, i64)>)
    requires
        ps1.len() == ps2.len(),
        forall|i: int|
            0 <= i < ps1.len() ==> (#[trigger] ps1[i]).0.individuals@.len()
                == ps2[i].0.individuals@.len(),
    ensures
        total_pop(ps1) == total_pop(ps2),
    decreases ps1.len(),
{
    if ps1.len() > 0 {
        assert(forall|i: int|
            0 <= i < ps1.drop_last().len() ==> (#[trigger] ps1.drop_last()[i])
                == ps1[i] && ps2.drop_last()[i] == ps2[i]);
        lemma_total_pop_congruent(ps1.drop_last(), ps2.drop_last());
        assert(ps1.last() == ps1[ps1.len() - 1]);
        assert(ps2.last() == ps2[ps1.len() - 1]);
    }
}

impl State {
    /// The run invariant: patch and locus counts in range, an even locus
    /// count when diploid, every individual well formed, every environment
    /// within `[-SCALE, SCALE]`, and a bounded total population.
    pub open spec fn wf(&self) -> bool {
        &&& 1 <= self.patches@.len() <= PATCH_LIMIT
        &&& 1 <= self.loci <= GENOME_LIMIT
        &&& (self.diploid ==> self.loci % 2 == 0)
        &&& forall|p: int|
            0 <= p < self.patches@.len() ==> (#[trigger] self.patches@[p]).0.wf(self.loci as nat)
        &&& forall|p: int|
            0 <= p < self.patches@.len() ==> -SCALE <= (#[trigger] self.patches@[p]).1 <= SCALE
        &&& total_pop(self.patches@) <= POP_LIMIT
    }
}

} // verus!
