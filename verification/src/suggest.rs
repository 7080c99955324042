//! Selection-list helpers for the configuration forms.

use vstd::prelude::*;

verus! {

/// One entry of a selection list: a display name and the value it stands
/// for.
#[derive(Clone, Debug)]
pub struct Suggestion {
    pub name: String,
    pub value: i64,
}

/// Builds the selection list for a list of option names: entry `i` carries
/// the `i`-th name and the value `i`.
pub fn make_suggestions(names: &[&str]) -> (r: Vec<Suggestion>)
    requires
        names@.len() <= 0x7fff_ffff_ffff_ffff,
    ensures
        r@.len() == names@.len(),
        forall|i: int|
            0 <= i < r@.len() ==> (#[trigger] r@[i]).value == i && r@[i].name@ == names@[i]@,
{
    let n = names.len();
    let mut out: Vec<Suggestion> = Vec::new();
    let mut i: usize = 0;
    while i < n
        invariant
            i <= n,
            n == names@.len() <= 0x7fff_ffff_ffff_ffff,
            out@.len() == i,
            forall|k: int|
                0 <= k < i ==> (#[trigger] out@[k]).value == k && out@[k].name@ == names@[k]@,
        decreases n - i,
    {
        let name: &str = names[i];
        out.push(Suggestion { name: name.to_owned(), value: i as i64 });
        i = i + 1;
    }
    out
}

} // verus!
