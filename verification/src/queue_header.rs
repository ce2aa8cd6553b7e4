//! Sorting the queue by a column: the position swaps that take the queue to
//! a desired order.
use vstd::prelude::*;

use std::collections::HashMap;

use crate::property::{find_sticker, property_text, shows_position, sticker_lookup, Property, PropertyKindOrText, Stickers};
use crate::screens::{text_less, text_lt};
use crate::song::{position_overflows, Song, TagResolutionStrategy};
use crate::sorted::{lists, pair_lt, pair_views, sorted_positions, sorts_positions};
use crate::text::{lowercase_of, to_lowercase};

verus! {

broadcast use vstd::std_specs::hash::group_hash_axioms;

/// `s` with the elements at `i` and `j` exchanged.
pub open spec fn swapped(s: Seq<u32>, i: int, j: int) -> Seq<u32> {
    s.update(i, s[j]).update(j, s[i])
}

/// `s` after the swaps, performed in order.
pub open spec fn apply_swaps(s: Seq<u32>, swaps: Seq<(usize, usize)>) -> Seq<u32>
    decreases swaps.len(),
{
    if swaps.len() == 0 {
        s
    } else {
        let prev = apply_swaps(s, swaps.drop_last());
        swapped(prev, swaps.last().0 as int, swaps.last().1 as int)
    }
}

/// No id occurs twice.
pub open spec fn distinct(s: Seq<u32>) -> bool {
    forall|a: int, b: int| 0 <= a < s.len() && 0 <= b < s.len() && a != b ==> s[a] != s[b]
}

/// Why no swaps could be computed.
#[derive(PartialEq, Eq, Structural, Debug)]
pub enum SwapError {
    /// The desired order names an id that is not in the queue.
    UnknownId(u32),
}

/// The swaps of queue positions that bring the songs with ids `current`
/// into the order `desired`, position by position from the front: each
/// position that does not already hold its desired id is swapped with the
/// position that does.
pub fn calculate_swaps(desired: &Vec<u32>, current: &Vec<u32>) -> (r: Result<
    Vec<(usize, usize)>,
    SwapError,
>)
    requires
        desired@.len() >= current@.len(),
    ensures
        r is Err <==> exists|i: int|
            0 <= i < current@.len() && !current@.contains(#[trigger] desired@[i]),
        r matches Err(SwapError::UnknownId(id)) ==> !current@.contains(id),
        r matches Ok(swaps) ==> forall|k: int|
            0 <= k < swaps@.len() ==> #[trigger] swaps@[k].0 < current@.len() && swaps@[k].1
                < current@.len(),
        distinct(desired@) ==> (r matches Ok(swaps) ==> apply_swaps(current@, swaps@)
            == desired@.take(current@.len() as int)),
        r matches Ok(swaps) ==> forall|k: int|
            0 <= k < swaps@.len() ==> k <= #[trigger] swaps@[k].0 && (k + 1 < swaps@.len() ==> swaps@[k].0 < swaps@[k + 1].0),
        distinct(desired@) ==> (r matches Ok(swaps) ==> (forall|k: int|
            0 <= k < swaps@.len() ==> #[trigger] swaps@[k].0 < swaps@[k].1) && swaps@.len() + 1 <= (if current@.len() == 0 {
            1
        } else {
            current@.len() as int
        })),
{
    let n = current.len();
    let mut cur = current.clone();
    let mut index: HashMap<u32, usize> = HashMap::new();
    for p in 0..n
        invariant
            n == current@.len(),
            cur@ == current@,
            forall|k: u32| #[trigger]
                index@.contains_key(k) ==> index@[k] < p && cur@[index@[k] as int] == k,
            forall|k: u32|
                #![trigger index@.contains_key(k)]
                index@.contains_key(k) <==> current@.take(p as int).contains(k),
    {
        let ghost old_index = index@;
        index.insert(cur[p], p);
        assert(current@.take(p + 1) =~= current@.take(p as int).push(current@[p as int]));
        assert forall|k: u32| #![trigger index@.contains_key(k)]
            index@.contains_key(k) <==> current@.take(p + 1).contains(k) by {
            if k == current@[p as int] {
                assert(current@.take(p + 1)[p as int] == k);
            } else {
                assert(index@.contains_key(k) == old_index.contains_key(k));
                if current@.take(p + 1).contains(k) {
                    let t = choose|t: int| 0 <= t < p + 1 && #[trigger] current@.take(p + 1)[t] == k;
                    assert(t < p);
                    assert(current@.take(p as int)[t] == k);
                }
                if current@.take(p as int).contains(k) {
                    let t = choose|t: int| 0 <= t < p && #[trigger] current@.take(p as int)[t] == k;
                    assert(current@.take(p + 1)[t] == k);
                }
            }
        }
    }
    assert(current@.take(n as int) =~= current@);
    let mut swaps: Vec<(usize, usize)> = Vec::new();
    for i in 0..n
        invariant
            n == current@.len(),
            desired@.len() >= n,
            cur@.len() == n,
            cur@ == apply_swaps(current@, swaps@),
            forall|k: u32| #[trigger]
                index@.contains_key(k) ==> index@[k] < n && cur@[index@[k] as int] == k,
            forall|k: u32| #![trigger index@.contains_key(k)]
                index@.contains_key(k) <==> current@.contains(k),
            forall|k: int|
                0 <= k < swaps@.len() ==> #[trigger] swaps@[k].0 < n && swaps@[k].1 < n,
            forall|t: int| 0 <= t < i ==> current@.contains(#[trigger] desired@[t]),
            distinct(desired@) ==> forall|t: int| 0 <= t < i ==> cur@[t] == desired@[t],
            swaps@.len() <= i,
            forall|k: int| 0 <= k < swaps@.len() ==> k <= #[trigger] swaps@[k].0 < i,
            forall|k: int| 0 <= k < swaps@.len() - 1 ==> #[trigger] swaps@[k].0 < swaps@[k + 1].0,
            distinct(desired@) ==> forall|k: int| 0 <= k < swaps@.len() ==> #[trigger] swaps@[k].0 < swaps@[k].1,
    {
        let target = desired[i];
        if cur[i] == target {
            proof {
                lemma_apply_swaps_keeps_ids(current@, swaps@, i as int);
            }
        } else {
            let j = match index.get(&target) {
                Some(j) => *j,
                None => {
                    return Err(SwapError::UnknownId(target));
                },
            };
            let ghost before = cur@;
            let ghost old_sw = swaps@;
            let ghost old_index = index@;
            proof {
                lemma_apply_swaps_keeps_ids(current@, swaps@, i as int);
            }
            swaps.push((i, j));
            let ai = cur[i];
            let cj = cur[j];
            cur.set(i, cj);
            cur.set(j, ai);
            proof {
                assert(swaps@.drop_last() =~= old_sw);
                assert(swaps@.last() == (i, j));
                assert(before == apply_swaps(current@, old_sw));
                assert(apply_swaps(current@, swaps@) == swapped(
                    apply_swaps(current@, old_sw),
                    i as int,
                    j as int,
                ));
                assert(cur@ =~= swapped(before, i as int, j as int));
                if distinct(desired@) {
                    if (j as int) < (i as int) {
                        assert(before[j as int] == desired@[j as int]);
                        assert(false);
                    }
                    assert(j != i);
                }
            }
            index.insert(ai, j);
            index.insert(target, i);
            assert forall|k: u32| #![trigger index@.contains_key(k)]
                index@.contains_key(k) <==> current@.contains(k) by {
                if k == ai || k == target {
                    assert(old_index.contains_key(k));
                } else {
                    assert(index@.contains_key(k) == old_index.contains_key(k));
                }
            }
            assert forall|k: u32| #[trigger] index@.contains_key(k) implies index@[k] < n
                && cur@[index@[k] as int] == k by {
                if k == target {
                } else if k == ai {
                } else {
                    assert(old_index.contains_key(k));
                    let p = old_index[k];
                    assert(before[p as int] == k);
                    assert(p != i && p != j);
                }
            }
        }
    }
    proof {
        if distinct(desired@) && swaps@.len() > 0 {
            let l = swaps@.len() - 1;
            assert(l <= swaps@[l].0 && swaps@[l].0 < swaps@[l].1 && swaps@[l].1 < n);
        }
    }
    Ok(swaps)
}

/// Every id of the queue after some swaps was an id of the queue before.
pub proof fn lemma_apply_swaps_keeps_ids(s: Seq<u32>, swaps: Seq<(usize, usize)>, p: int)
    requires
        0 <= p < s.len(),
        forall|k: int| 0 <= k < swaps.len() ==> #[trigger] swaps[k].0 < s.len() && swaps[k].1 < s.len(),
    ensures
        apply_swaps(s, swaps).len() == s.len(),
        s.contains(apply_swaps(s, swaps)[p]),
    decreases swaps.len(),
{
    if swaps.len() > 0 {
        let init = swaps.drop_last();
        assert forall|k: int| 0 <= k < init.len() implies #[trigger] init[k].0 < s.len()
            && init[k].1 < s.len() by {
            assert(init[k] == swaps[k]);
        }
        let (a, b) = (swaps.last().0 as int, swaps.last().1 as int);
        assert(swaps[swaps.len() - 1] == swaps.last());
        lemma_apply_swaps_keeps_ids(s, init, p);
        lemma_apply_swaps_keeps_ids(s, init, a);
        lemma_apply_swaps_keeps_ids(s, init, b);
    }
}

/// The text a column shows for a song, as the queue is sorted by it: a
/// sticker's value, or the format resolved without a tag separator; empty
/// when there is none.
pub open spec fn column_key(f: &Property, song: &Song, stickers: Option<&Stickers>, strategy: TagResolutionStrategy) -> Seq<char> {
    match &f.kind {
        PropertyKindOrText::Sticker(name) => match stickers {
            Some(st) => match sticker_lookup(st@, name@) {
                Some(v) => v,
                None => Seq::empty(),
            },
            None => Seq::empty(),
        },
        _ => match property_text(f, Some(song), stickers, Seq::empty(), strategy) {
            Some(v) => v,
            None => Seq::empty(),
        },
    }
}

/// What the queue is sorted by when sorting by column `idx`: for each song
/// (with its stickers), the text of the column; nothing to sort by when the
/// column does not exist or is constant text.
pub fn column_sort_keys(
    formats: &Vec<Property>,
    idx: usize,
    queue: &Vec<Song>,
    stickers: &Vec<Option<Stickers>>,
    strategy: TagResolutionStrategy,
) -> (r: Option<Vec<String>>)
    requires
        stickers@.len() == queue@.len(),
        idx < formats@.len() && shows_position(&formats@[idx as int]) ==> forall|i: int|
            0 <= i < queue@.len() ==> !position_overflows(&#[trigger] queue@[i]),
    ensures
        idx >= formats@.len() || formats@[idx as int].kind is Text ==> r is None,
        idx < formats@.len() && !(formats@[idx as int].kind is Text) ==> (r matches Some(keys) && keys@.len() == queue@.len()
            && forall|i: int| 0 <= i < queue@.len() ==> #[trigger] keys@[i]@ == column_key(
                &formats@[idx as int],
                &queue@[i],
                match &stickers@[i] {
                    Some(st) => Some(st),
                    None => None,
                },
                strategy,
            )),
{
    if idx >= formats.len() {
        return None;
    }
    let f = &formats[idx];
    if let PropertyKindOrText::Text(_) = &f.kind {
        return None;
    }
    let mut keys: Vec<String> = Vec::new();
    for i in 0..queue.len()
        invariant
            stickers@.len() == queue@.len(),
            idx < formats@.len(),
            f == &formats@[idx as int],
            shows_position(f) ==> forall|j: int| 0 <= j < queue@.len() ==> !position_overflows(&#[trigger] queue@[j]),
            keys@.len() == i,
            !(f.kind is Text),
            forall|j: int| 0 <= j < i ==> #[trigger] keys@[j]@ == column_key(
                f,
                &queue@[j],
                match &stickers@[j] {
                    Some(st) => Some(st),
                    None => None,
                },
                strategy,
            ),
    {
        let st: Option<&Stickers> = match &stickers[i] {
            Some(s) => Some(s),
            None => None,
        };
        let key = match &f.kind {
            PropertyKindOrText::Sticker(name) => {
                let found = match st {
                    Some(s) => find_sticker(s, name.as_str()),
                    None => None,
                };
                match found {
                    Some(v) => v,
                    None => String::new(),
                }
            },
            _ => {
                proof {
                    reveal_strlit("");
                    assert(""@ =~= Seq::<char>::empty());
                }
                assert(shows_position(f) ==> !position_overflows(&queue@[i as int]));
                match f.as_string(Some(&queue[i]), st, "", strategy) {
                    Some(v) => v,
                    None => String::new(),
                }
            },
        };
        assert(st == match &stickers@[i as int] {
            Some(x) => Some(x),
            None => None,
        });
        assert(key@ == column_key(f, &queue@[i as int], st, strategy));
        keys.push(key);
    }
    Some(keys)
}


/// The texts of some keys with case folded.
pub open spec fn folded(keys: Seq<String>) -> Seq<Seq<char>> {
    keys.map_values(|k: String| lowercase_of(k@))
}

/// No key comes before the one ahead of it.
pub open spec fn non_decreasing(keys: Seq<Seq<char>>) -> bool {
    forall|i: int| 0 <= i < keys.len() - 1 ==> !text_lt(#[trigger] keys[i + 1], keys[i])
}

/// `order` lists every position of `keys` once: ascending by key when
/// `descending` is not set, descending otherwise, equal keys in their
/// original order either way.
pub open spec fn sorts_by(keys: Seq<Seq<char>>, order: Seq<usize>, descending: bool) -> bool {
    &&& order.len() == keys.len()
    &&& forall|k: int| 0 <= k < order.len() ==> #[trigger] order[k] < keys.len()
    &&& forall|p: int| 0 <= p < keys.len() ==> #[trigger] lists(order, p)
    &&& forall|k: int, l: int| 0 <= k < l < order.len() ==> #[trigger] order[k] != #[trigger] order[l]
    &&& forall|k: int, l: int|
        0 <= k < l < order.len() ==> if descending {
            !text_lt(keys[#[trigger] order[k] as int], keys[#[trigger] order[l] as int])
        } else {
            !text_lt(keys[#[trigger] order[l] as int], keys[#[trigger] order[k] as int])
        }
    &&& forall|k: int, l: int|
        0 <= k < l < order.len() && keys[#[trigger] order[k] as int] == keys[#[trigger] order[l] as int] ==> order[k] < order[l]
}

/// The order sorting by a column puts the queue in, given each song's
/// text in the column: by the texts with case folded, descending when they
/// are already in ascending order, else ascending; equal texts keep their
/// order.
pub fn column_order(keys: &Vec<String>) -> (r: Vec<usize>)
    ensures
        sorts_by(folded(keys@), r@, non_decreasing(folded(keys@))),
{
    let n = keys.len();
    let mut low: Vec<String> = Vec::new();
    for i in 0..n
        invariant
            n == keys@.len(),
            low@.len() == i,
            forall|k: int| 0 <= k < i ==> #[trigger] low@[k]@ == folded(keys@)[k],
    {
        low.push(to_lowercase(keys[i].as_str()));
    }
    let ghost f = folded(keys@);
    assert(forall|k: int| 0 <= k < n ==> #[trigger] low@[k]@ == f[k]);
    let mut ascending_already = true;
    let mut i: usize = 0;
    while i < n && i + 1 < n
        invariant
            n == 0 || i < n,
            n == low@.len(),
            n == f.len(),
            forall|k: int| 0 <= k < n ==> #[trigger] low@[k]@ == f[k],
            ascending_already <==> forall|j: int| 0 <= j < i && j < n - 1 ==> !text_lt(#[trigger] f[j + 1], f[j]),
        decreases n - i,
    {
        if text_less(low[i + 1].as_str(), low[i].as_str()) {
            ascending_already = false;
        }
        i = i + 1;
    }
    proof {
        if n > 0 {
            assert(i == n - 1);
        }
        assert(ascending_already == non_decreasing(f));
    }
    let empty = String::new();
    let mut pairs: Vec<(String, String)> = Vec::new();
    for k in 0..n
        invariant
            n == low@.len(),
            n == f.len(),
            forall|q: int| 0 <= q < n ==> #[trigger] low@[q]@ == f[q],
            pairs@.len() == k,
            empty@.len() == 0,
            forall|q: int| 0 <= q < k ==> (#[trigger] pairs@[q]).0@ == (if ascending_already {
                f[n - 1 - q]
            } else {
                f[q]
            }) && pairs@[q].1@ == Seq::<char>::empty(),
    {
        let t = if ascending_already {
            low[n - 1 - k].clone()
        } else {
            low[k].clone()
        };
        pairs.push((t, empty.clone()));
    }
    proof {
        assert forall|q: int| 0 <= q < n implies #[trigger] pair_views(pairs@)[q] == (if ascending_already {
            f[n - 1 - q]
        } else {
            f[q]
        }, Seq::<char>::empty()) by {
            assert(pair_views(pairs@)[q] == (pairs@[q].0@, pairs@[q].1@));
        }
    }
    let ord = sorted_positions(&pairs);
    let ghost kv = pair_views(pairs@);
    assert(kv.len() == n);
    if !ascending_already {
        proof {
            assert forall|k: int, l: int| 0 <= k < l < ord@.len() implies !text_lt(
                f[#[trigger] ord@[l] as int],
                f[#[trigger] ord@[k] as int],
            ) by {
                assert(!pair_lt(kv[ord@[l] as int], kv[ord@[k] as int]));
            }
            assert forall|k: int, l: int|
                0 <= k < l < ord@.len() && f[#[trigger] ord@[k] as int] == f[#[trigger] ord@[l] as int] implies ord@[k]
                < ord@[l] by {
                assert(kv[ord@[k] as int] == kv[ord@[l] as int]);
            }
        }
        return ord;
    }
    let mut r: Vec<usize> = Vec::new();
    for k in 0..n
        invariant
            n == ord@.len(),
            sorts_positions(kv, ord@),
            r@.len() == k,
            forall|q: int| 0 <= q < k ==> #[trigger] r@[q] == n - 1 - ord@[n - 1 - q],
    {
        let o = ord[n - 1 - k];
        r.push(n - 1 - o);
    }
    proof {
        assert forall|p: int| 0 <= p < n implies #[trigger] lists(r@, p) by {
            assert(lists(ord@, n - 1 - p));
            let a = choose|a: int| 0 <= a < ord@.len() && #[trigger] ord@[a] == n - 1 - p;
            assert(r@[n - 1 - a] == p);
        }
        assert forall|k: int, l: int| 0 <= k < l < r@.len() implies #[trigger] r@[k] != #[trigger] r@[l] by {
            assert(ord@[n - 1 - l] != ord@[n - 1 - k]);
        }
        assert forall|k: int, l: int| 0 <= k < l < r@.len() implies !text_lt(
            f[#[trigger] r@[k] as int],
            f[#[trigger] r@[l] as int],
        ) by {
            let a = n - 1 - l;
            let b = n - 1 - k;
            assert(!pair_lt(kv[ord@[b] as int], kv[ord@[a] as int]));
            assert(kv[ord@[b] as int].0 == f[r@[k] as int]);
            assert(kv[ord@[a] as int].0 == f[r@[l] as int]);
        }
        assert forall|k: int, l: int|
            0 <= k < l < r@.len() && f[#[trigger] r@[k] as int] == f[#[trigger] r@[l] as int] implies r@[k] < r@[l] by {
            let a = n - 1 - l;
            let b = n - 1 - k;
            assert(kv[ord@[b] as int] == kv[ord@[a] as int]);
            assert(ord@[a] < ord@[b]);
        }
    }
    r
}


/// The ids taken in the order `order` gives.
pub open spec fn reordered(ids: Seq<u32>, order: Seq<usize>) -> Seq<u32> {
    order.map_values(|p: usize| ids[p as int])
}

/// The swaps that sort the queue, whose songs have ids `ids` and texts
/// `keys` in the column sorted by, into the order of `column_order`, each
/// swap moving a song into its place from further down.
pub fn column_swaps(ids: &Vec<u32>, keys: &Vec<String>) -> (r: Result<Vec<(usize, usize)>, SwapError>)
    requires
        ids@.len() == keys@.len(),
    ensures
        distinct(ids@) ==> exists|order: Seq<usize>|
            sorts_by(folded(keys@), order, non_decreasing(folded(keys@))) && (r matches Ok(swaps)
                && apply_swaps(ids@, swaps@) == reordered(ids@, order) && (forall|k: int|
                0 <= k < swaps@.len() ==> #[trigger] swaps@[k].0 < swaps@[k].1 && swaps@[k].1 < ids@.len())
                && swaps@.len() + 1 <= (if ids@.len() == 0 {
                1
            } else {
                ids@.len() as int
            })),
{
    let order = column_order(keys);
    let n = ids.len();
    let mut desired: Vec<u32> = Vec::new();
    for k in 0..n
        invariant
            n == ids@.len(),
            order@.len() == n,
            forall|q: int| 0 <= q < n ==> #[trigger] order@[q] < n,
            desired@ == reordered(ids@, order@).take(k as int),
    {
        desired.push(ids[order[k]]);
        assert(desired@ =~= reordered(ids@, order@).take(k + 1));
    }
    assert(desired@ =~= reordered(ids@, order@));
    proof {
        assert forall|i: int| 0 <= i < n implies ids@.contains(#[trigger] desired@[i]) by {
            assert(ids@[order@[i] as int] == desired@[i]);
        }
        if distinct(ids@) {
            assert forall|a: int, b: int| 0 <= a < n && 0 <= b < n && a != b implies desired@[a] != desired@[b] by {
                if a < b {
                    assert(order@[a] != order@[b]);
                } else {
                    assert(order@[b] != order@[a]);
                }
            }
        }
    }
    let r = calculate_swaps(&desired, ids);
    proof {
        if distinct(ids@) {
            assert(desired@.take(n as int) =~= desired@);
        }
    }
    r
}

} // verus!
