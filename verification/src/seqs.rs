use vstd::prelude::*;

verus! {

/// Extending a prefix by one element extends its filtered form by that
/// element exactly when the predicate accepts it.
pub proof fn lemma_filter_take_step<A>(s: Seq<A>, p: spec_fn(A) -> bool, k: int)
    requires
        0 <= k < s.len(),
    ensures
        p(s[k]) ==> s.take(k + 1).filter(p) == s.take(k).filter(p).push(s[k]),
        !p(s[k]) ==> s.take(k + 1).filter(p) == s.take(k).filter(p),
{
    reveal(Seq::filter);
    assert(s.take(k + 1).drop_last() =~= s.take(k));
    assert(s.take(k + 1).last() == s[k]);
}

/// A predicate that accepts every element filters nothing out.
pub proof fn lemma_filter_all_true<A>(s: Seq<A>, p: spec_fn(A) -> bool)
    requires
        forall|i: int| 0 <= i < s.len() ==> p(#[trigger] s[i]),
    ensures
        s.filter(p) == s,
    decreases s.len(),
{
    reveal(Seq::filter);
    if s.len() > 0 {
        lemma_filter_all_true(s.drop_last(), p);
        assert(s.filter(p) =~= s);
    }
}

/// A predicate that rejects every element filters everything out.
pub proof fn lemma_filter_all_false<A>(s: Seq<A>, p: spec_fn(A) -> bool)
    requires
        forall|i: int| 0 <= i < s.len() ==> !p(#[trigger] s[i]),
    ensures
        s.filter(p) == Seq::<A>::empty(),
    decreases s.len(),
{
    reveal(Seq::filter);
    if s.len() > 0 {
        lemma_filter_all_false(s.drop_last(), p);
    }
}

} // verus!
