//! Facts about sequences that the loops over the entity pools rest on.
use vstd::prelude::*;

verus! {

/// Filtering one element more of a sequence either appends that element or
/// changes nothing.
pub proof fn lemma_filter_step<A>(s: Seq<A>, keep: spec_fn(A) -> bool, i: int)
    requires
        0 <= i < s.len(),
    ensures
        keep(s[i]) ==> s.take(i + 1).filter(keep) == s.take(i).filter(keep).push(s[i]),
        !keep(s[i]) ==> s.take(i + 1).filter(keep) == s.take(i).filter(keep),
{
    reveal(Seq::filter);
    assert(s.take(i + 1).drop_last() =~= s.take(i));
}

/// A sequence taken whole is the sequence.
pub proof fn lemma_take_all<A>(s: Seq<A>)
    ensures
        s.take(s.len() as int) == s,
{
}

} // verus!
