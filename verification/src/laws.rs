//! Run-wide laws, stated once over the run invariant.

use vstd::prelude::*;

use crate::population::State;

verus! {

/// The uniform-genome law: in any well-formed state — `init` establishes
/// well-formedness and `step` preserves it tick by tick — every individual
/// of every patch carries exactly the run's fixed locus count, which is
/// the configured count for a haploid run and twice it for a diploid run.
pub proof fn lemma_uniform_locus_count(s: State)
    requires
        s.wf(),
    ensures
        forall|p: int, i: int|
            0 <= p < s.patches@.len() && 0 <= i < s.patches@[p].0.individuals@.len()
                ==> (#[trigger] s.patches@[p].0.individuals@[i]).loci@.len() == s.loci,
{
    assert forall|p: int, i: int|
        0 <= p < s.patches@.len() && 0 <= i < s.patches@[p].0.individuals@.len() implies (
    #[trigger] s.patches@[p].0.individuals@[i]).loci@.len() == s.loci by {
        assert(s.patches@[p].0.wf(s.loci as nat));
        assert(s.patches@[p].0.individuals@[i].wf(s.loci as nat));
    }
}

} // verus!
