//! Facts about filtered sequences that the rest of the crate relies on.

use vstd::prelude::*;

verus! {

/// Filtering a sequence with one more element at its end.
pub proof fn lemma_filter_push<A>(s: Seq<A>, x: A, pred: spec_fn(A) -> bool)
    ensures
        s.push(x).filter(pred) == if pred(x) {
            s.filter(pred).push(x)
        } else {
            s.filter(pred)
        },
{
    reveal(Seq::filter);
    assert(s.push(x).drop_last() =~= s);
}

/// Filtering the empty sequence.
pub proof fn lemma_filter_empty<A>(pred: spec_fn(A) -> bool)
    ensures
        Seq::<A>::empty().filter(pred) == Seq::<A>::empty(),
{
    reveal(Seq::filter);
}

/// Every element of a filtered sequence satisfies the predicate and comes from
/// the sequence that was filtered.
pub proof fn lemma_filter_members<A>(s: Seq<A>, pred: spec_fn(A) -> bool)
    ensures
        forall|i: int|
            0 <= i < s.filter(pred).len() ==> pred(#[trigger] s.filter(pred)[i]) && s.contains(
                s.filter(pred)[i],
            ),
    decreases s.len(),
{
    reveal(Seq::filter);
    if s.len() > 0 {
        let init = s.drop_last();
        lemma_filter_members(init, pred);
        assert forall|i: int| 0 <= i < s.filter(pred).len() implies pred(
            #[trigger] s.filter(pred)[i],
        ) && s.contains(s.filter(pred)[i]) by {
            if i < init.filter(pred).len() {
                let x = init.filter(pred)[i];
                assert(init.contains(x));
                let k = choose|k: int| 0 <= k < init.len() && init[k] == x;
                assert(s[k] == x);
            } else {
                assert(s[s.len() - 1] == s.last());
            }
        }
    }
}

/// A sequence whose elements all fail the predicate filters to nothing.
pub proof fn lemma_filter_none<A>(s: Seq<A>, pred: spec_fn(A) -> bool)
    requires
        forall|i: int| 0 <= i < s.len() ==> !pred(#[trigger] s[i]),
    ensures
        s.filter(pred) == Seq::<A>::empty(),
    decreases s.len(),
{
    reveal(Seq::filter);
    if s.len() > 0 {
        lemma_filter_none(s.drop_last(), pred);
    }
}

} // verus!
