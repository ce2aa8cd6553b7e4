//! Facts about sequence filters used by the list-building functions.
use vstd::prelude::*;

verus! {

/// Filtering a sequence extended by one element.
pub proof fn lemma_filter_push<A>(s: Seq<A>, pred: spec_fn(A) -> bool, e: A)
    ensures
        pred(e) ==> s.push(e).filter(pred) == s.filter(pred).push(e),
        !pred(e) ==> s.push(e).filter(pred) == s.filter(pred),
{
    reveal(Seq::filter);
    assert(s.push(e).drop_last() =~= s);
}

/// Filtering after a map is mapping after the matching filter.
pub proof fn lemma_filter_map_commute<A, B>(
    s: Seq<A>,
    f: spec_fn(A) -> B,
    p: spec_fn(B) -> bool,
    q: spec_fn(A) -> bool,
)
    requires
        forall|i: int| 0 <= i < s.len() ==> q(s[i]) == p(f(s[i])),
    ensures
        s.map_values(f).filter(p) == s.filter(q).map_values(f),
    decreases s.len(),
{
    reveal(Seq::filter);
    if s.len() > 0 {
        let init = s.drop_last();
        assert forall|i: int| 0 <= i < init.len() implies q(init[i]) == p(f(init[i])) by {
            assert(init[i] == s[i]);
        }
        lemma_filter_map_commute(init, f, p, q);
        assert(s.map_values(f).drop_last() =~= init.map_values(f));
        assert(s.map_values(f).last() == f(s.last()));
        assert(q(s.last()) == p(f(s.last())));
        if q(s.last()) {
            assert(s.filter(q).map_values(f) =~= init.filter(q).map_values(f).push(f(s.last())));
        } else {
            assert(s.filter(q).map_values(f) =~= init.filter(q).map_values(f));
        }
    }
}

} // verus!
