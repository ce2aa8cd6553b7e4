//! Stable sorting of entries by a pair of texts, as the previews and the
//! album lists order their entries.
use vstd::prelude::*;

use crate::screens::text_lt;
use itertools::Itertools;

verus! {

/// Some entry of `r` knows itself to be the `p`-th of the input.
pub open spec fn carries(r: Seq<((String, String), usize)>, p: int) -> bool {
    exists|k: int| 0 <= k < r.len() && #[trigger] r[k].1 == p
}

/// `p` is one of the positions of `order`.
pub open spec fn lists(order: Seq<usize>, p: int) -> bool {
    exists|k: int| 0 <= k < order.len() && #[trigger] order[k] == p
}

/// The two texts an entry is sorted by.
pub open spec fn key_of(e: ((String, String), usize)) -> (Seq<char>, Seq<char>) {
    (e.0.0@, e.0.1@)
}

/// `a` comes strictly before `b`: by the first text, then by the second.
pub open spec fn pair_lt(a: (Seq<char>, Seq<char>), b: (Seq<char>, Seq<char>)) -> bool {
    text_lt(a.0, b.0) || (a.0 == b.0 && text_lt(a.1, b.1))
}

/// `r` holds the entries of `items` (each entry knowing its place in
/// `items`), each once, sorted by key, entries with equal keys in their
/// original order.
pub open spec fn stably_sorted(
    items: Seq<((String, String), usize)>,
    r: Seq<((String, String), usize)>,
) -> bool {
    &&& r.len() == items.len()
    &&& forall|k: int| 0 <= k < r.len() ==> #[trigger] r[k].1 < items.len() && r[k] == items[r[k].1 as int]
    &&& forall|p: int| 0 <= p < items.len() ==> #[trigger] carries(r, p)
    &&& forall|k: int, l: int| 0 <= k < l < r.len() ==> #[trigger] r[k].1 != #[trigger] r[l].1
    &&& forall|k: int, l: int| 0 <= k < l < r.len() ==> !pair_lt(key_of(#[trigger] r[l]), key_of(#[trigger] r[k]))
    &&& forall|k: int, l: int|
        0 <= k < l < r.len() && key_of(#[trigger] r[k]) == key_of(#[trigger] r[l]) ==> r[k].1 < r[l].1
}

/// The entries sorted by their pair of texts, stably.
///
/// Trusted: itertools' `sorted_by_key` collects the entries and sorts them
/// with `slice::sort_by_key`, a stable sort; the key is the pair of
/// strings, ordered as tuples of `String`, that is by the first string and
/// then the second, each compared character by character in the order of
/// code points, a proper prefix first. Each entry carries its place in the
/// input, so the result is a rearrangement of the input.
#[verifier::external_body]
pub(crate) fn sorted_by_text_keys(items: Vec<((String, String), usize)>) -> (r: Vec<((String, String), usize)>)
    requires
        forall|k: int| 0 <= k < items@.len() ==> #[trigger] items@[k].1 == k,
    ensures
        stably_sorted(items@, r@),
{
    items.into_iter().sorted_by_key(|e| e.0.clone()).collect()
}

/// The texts of a list of pairs.
pub open spec fn pair_views(keys: Seq<(String, String)>) -> Seq<(Seq<char>, Seq<char>)> {
    keys.map_values(|k: (String, String)| (k.0@, k.1@))
}

/// `order` lists every position of `keys` once, sorted by key, equal keys
/// in their original order.
pub open spec fn sorts_positions(keys: Seq<(Seq<char>, Seq<char>)>, order: Seq<usize>) -> bool {
    &&& order.len() == keys.len()
    &&& forall|k: int| 0 <= k < order.len() ==> #[trigger] order[k] < keys.len()
    &&& forall|p: int| 0 <= p < keys.len() ==> #[trigger] lists(order, p)
    &&& forall|k: int, l: int| 0 <= k < l < order.len() ==> #[trigger] order[k] != #[trigger] order[l]
    &&& forall|k: int, l: int|
        0 <= k < l < order.len() ==> !pair_lt(keys[#[trigger] order[l] as int], keys[#[trigger] order[k] as int])
    &&& forall|k: int, l: int|
        0 <= k < l < order.len() && keys[#[trigger] order[k] as int] == keys[#[trigger] order[l] as int] ==> order[k] < order[l]
}

/// The positions of `keys` in sorted order, equal keys keeping their
/// order.
pub fn sorted_positions(keys: &Vec<(String, String)>) -> (r: Vec<usize>)
    ensures
        sorts_positions(pair_views(keys@), r@),
{
    let n = keys.len();
    let mut items: Vec<((String, String), usize)> = Vec::new();
    for i in 0..n
        invariant
            n == keys@.len(),
            items@.len() == i,
            forall|k: int| 0 <= k < i ==> (#[trigger] items@[k]).1 == k,
            forall|k: int| 0 <= k < i ==> key_of(#[trigger] items@[k]) == pair_views(keys@)[k],
    {
        let a = keys[i].0.clone();
        let b = keys[i].1.clone();
        items.push(((a, b), i));
        assert(pair_views(keys@)[i as int] == (keys@[i as int].0@, keys@[i as int].1@));
        assert(key_of(items@[i as int]) == pair_views(keys@)[i as int]);
    }
    let ghost input = items@;
    let sorted = sorted_by_text_keys(items);
    let mut r: Vec<usize> = Vec::new();
    for k in 0..sorted.len()
        invariant
            stably_sorted(input, sorted@),
            r@.len() == k,
            k <= sorted@.len(),
            forall|q: int| 0 <= q < k ==> #[trigger] r@[q] == sorted@[q].1,
    {
        r.push(sorted[k].1);
    }
    proof {
        let kv = pair_views(keys@);
        assert forall|q: int| 0 <= q < r@.len() implies key_of(#[trigger] sorted@[q]) == kv[r@[q] as int] by {
            assert(sorted@[q] == input[sorted@[q].1 as int]);
        }
        assert forall|p: int| 0 <= p < kv.len() implies #[trigger] lists(r@, p) by {
            assert(carries(sorted@, p));
            let k = choose|k: int| 0 <= k < sorted@.len() && #[trigger] sorted@[k].1 == p;
            assert(r@[k] == p);
        }
        assert forall|k: int, l: int| 0 <= k < l < r@.len() implies #[trigger] r@[k] != #[trigger] r@[l] by {
            assert(sorted@[k].1 != sorted@[l].1);
        }
        assert forall|k: int, l: int| 0 <= k < l < r@.len() implies !pair_lt(kv[#[trigger] r@[l] as int], kv[#[trigger] r@[k] as int]) by {
            assert(!pair_lt(key_of(sorted@[l]), key_of(sorted@[k])));
            assert(key_of(sorted@[l]) == kv[r@[l] as int]);
            assert(key_of(sorted@[k]) == kv[r@[k] as int]);
        }
        assert forall|k: int, l: int| 0 <= k < l < r@.len() && kv[#[trigger] r@[k] as int] == kv[#[trigger] r@[l] as int] implies r@[k] < r@[l] by {
            assert(key_of(sorted@[l]) == kv[r@[l] as int]);
            assert(key_of(sorted@[k]) == kv[r@[k] as int]);
        }
    }
    r
}

} // verus!
