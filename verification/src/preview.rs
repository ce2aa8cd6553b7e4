//! The preview of a song: its file and main tags, its other tags sorted by
//! name, and its stickers sorted by name.
use vstd::prelude::*;

use crate::property::Stickers;
use crate::song::{path_file_stem, tag_lookup, MetadataTag, Song};
use crate::sorted::{lists, pair_lt, pair_views, sorted_positions, sorts_positions};
use crate::text::{chars_to_string, decimal, decimal_chars, str_equals};

verus! {

/// A titled group of `key: value` lines.
pub struct PreviewGroup {
    pub header: String,
    pub lines: Vec<(String, String)>,
}

/// The plain values of a list of lines.
pub open spec fn lines_view(v: Seq<(String, String)>) -> Seq<(Seq<char>, Seq<char>)> {
    v.map_values(|l: (String, String)| (l.0@, l.1@))
}

/// One line per value of a tag, each with `label`.
pub open spec fn value_lines(label: Seq<char>, vs: Seq<Seq<char>>) -> Seq<(Seq<char>, Seq<char>)> {
    vs.map_values(|v: Seq<char>| (label, v))
}

/// The lines of the tag `key`, if the song has it.
pub open spec fn tag_lines(song: Song, key: Seq<char>, label: Seq<char>) -> Seq<(Seq<char>, Seq<char>)> {
    match tag_lookup(song.metadata@, key) {
        Some(vs) => value_lines(label, vs),
        None => Seq::empty(),
    }
}

/// The lines of the info group: the file, the file name, the titles,
/// artists and albums, the length in seconds, when the file was last
/// modified and when it was added.
pub open spec fn info_lines(song: Song, last_modified: Seq<char>, added: Option<Seq<char>>) -> Seq<
    (Seq<char>, Seq<char>),
> {
    seq![("File"@, song.file@)] + match path_file_stem(song.file@) {
        Some(n) => seq![("Filename"@, n)],
        None => Seq::empty(),
    } + tag_lines(song, "title"@, "Title"@) + tag_lines(song, "artist"@, "Artist"@) + tag_lines(
        song,
        "album"@,
        "Album"@,
    ) + match song.duration {
        Some(d) => seq![("Duration"@, decimal(d as nat))],
        None => Seq::empty(),
    } + seq![("Last Modified"@, last_modified)] + match added {
        Some(a) => seq![("Added"@, a)],
        None => Seq::empty(),
    }
}

/// The tags the info group shows already.
pub open spec fn shown_in_info(key: Seq<char>) -> bool {
    key == "title"@ || key == "album"@ || key == "artist"@ || key == "duration"@
}

/// The lines of the tags at `order`, in that order.
pub open spec fn ordered_tag_lines(meta: Seq<(String, MetadataTag)>, order: Seq<usize>) -> Seq<
    (Seq<char>, Seq<char>),
>
    decreases order.len(),
{
    if order.len() == 0 {
        Seq::empty()
    } else {
        let e = meta[order.last() as int];
        ordered_tag_lines(meta, order.drop_last()) + value_lines(e.0@, e.1.values())
    }
}

/// `order` lists each tag not shown in the info group once, sorted by
/// name, tags of the same name in their original order.
pub open spec fn tag_order(meta: Seq<(String, MetadataTag)>, order: Seq<usize>) -> bool {
    &&& forall|k: int| 0 <= k < order.len() ==> #[trigger] order[k] < meta.len()
    &&& forall|i: int| 0 <= i < meta.len() ==> (!shown_in_info(meta[i].0@) <==> #[trigger] lists(order, i))
    &&& forall|k: int, l: int| 0 <= k < l < order.len() ==> #[trigger] order[k] != #[trigger] order[l]
    &&& forall|k: int, l: int|
        0 <= k < l < order.len() ==> !crate::screens::text_lt(meta[#[trigger] order[l] as int].0@, meta[#[trigger] order[k] as int].0@)
    &&& forall|k: int, l: int|
        0 <= k < l < order.len() && meta[#[trigger] order[k] as int].0@ == meta[#[trigger] order[l] as int].0@ ==> order[k] < order[l]
}

/// The stickers in `order`, one line each.
pub open spec fn ordered_sticker_lines(stickers: Seq<(String, String)>, order: Seq<usize>) -> Seq<
    (Seq<char>, Seq<char>),
> {
    order.map_values(|i: usize| (stickers[i as int].0@, stickers[i as int].1@))
}

/// `order` lists each sticker once, sorted by name, stickers of the same
/// name in their original order.
pub open spec fn sticker_order(stickers: Seq<(String, String)>, order: Seq<usize>) -> bool {
    &&& order.len() == stickers.len()
    &&& forall|k: int| 0 <= k < order.len() ==> #[trigger] order[k] < stickers.len()
    &&& forall|i: int| 0 <= i < stickers.len() ==> #[trigger] lists(order, i)
    &&& forall|k: int, l: int| 0 <= k < l < order.len() ==> #[trigger] order[k] != #[trigger] order[l]
    &&& forall|k: int, l: int|
        0 <= k < l < order.len() ==> !crate::screens::text_lt(stickers[#[trigger] order[l] as int].0@, stickers[#[trigger] order[k] as int].0@)
    &&& forall|k: int, l: int|
        0 <= k < l < order.len() && stickers[#[trigger] order[k] as int].0@ == stickers[#[trigger] order[l] as int].0@ ==> order[k] < order[l]
}

fn push_values(lines: &mut Vec<(String, String)>, label: &str, tag: &MetadataTag)
    ensures
        lines_view(final(lines)@) == lines_view(old(lines)@) + value_lines(label@, tag.values()),
{
    let ghost start = lines_view(lines@);
    match tag {
        MetadataTag::Single(v) => {
            lines.push((label.to_string(), v.clone()));
            assert(lines_view(lines@) =~= start + value_lines(label@, tag.values()));
        },
        MetadataTag::Multiple(vs) => {
            for k in 0..vs.len()
                invariant
                    lines_view(lines@) == start + value_lines(label@, crate::text::views(vs@.take(k as int))),
                    tag.values() == crate::text::views(vs@),
            {
                let ghost prev = lines@;
                lines.push((label.to_string(), vs[k].clone()));
                let ghost x = crate::text::views(vs@.take(k as int));
                assert(crate::text::views(vs@.take(k + 1)) =~= x.push(vs@[k as int]@));
                assert(value_lines(label@, x.push(vs@[k as int]@)) =~= value_lines(label@, x).push((label@, vs@[k as int]@)));
                assert(lines_view(lines@) =~= lines_view(prev).push((label@, vs@[k as int]@)));
                assert(lines_view(lines@) =~= start + value_lines(label@, crate::text::views(vs@.take(k + 1))));
            }
            assert(vs@.take(vs@.len() as int) =~= vs@);
        },
    }
}

fn push_tag(lines: &mut Vec<(String, String)>, song: &Song, key: &str, label: &str)
    ensures
        lines_view(final(lines)@) == lines_view(old(lines)@) + tag_lines(*song, key@, label@),
{
    match crate::song::find_tag(&song.metadata, key) {
        Some(i) => push_values(lines, label, &song.metadata[i].1),
        None => {
            assert(lines_view(lines@) =~= lines_view(lines@) + Seq::<(Seq<char>, Seq<char>)>::empty());
        },
    }
}

fn push_line(lines: &mut Vec<(String, String)>, key: &str, value: String)
    ensures
        lines_view(final(lines)@) == lines_view(old(lines)@) + seq![(key@, value@)],
{
    lines.push((key.to_string(), value));
    assert(lines_view(lines@) =~= lines_view(old(lines)@) + seq![(key@, value@)]);
}

fn info_group(song: &Song, last_modified: &str, added: Option<&str>) -> (r: Vec<(String, String)>)
    ensures
        lines_view(r@) == info_lines(*song, last_modified@, match added {
            Some(a) => Some(a@),
            None => None,
        }),
{
    let mut lines: Vec<(String, String)> = Vec::new();
    let ghost l0 = lines_view(lines@);
    push_line(&mut lines, "File", song.file.clone());
    let ghost l1 = lines_view(lines@);
    match song.file_name() {
        Some(n) => push_line(&mut lines, "Filename", n),
        None => {},
    }
    let ghost l2 = lines_view(lines@);
    push_tag(&mut lines, song, "title", "Title");
    push_tag(&mut lines, song, "artist", "Artist");
    push_tag(&mut lines, song, "album", "Album");
    let ghost l3 = lines_view(lines@);
    match song.duration {
        Some(d) => {
            let c = decimal_chars(d);
            push_line(&mut lines, "Duration", chars_to_string(c.as_slice()));
        },
        None => {},
    }
    let ghost l4 = lines_view(lines@);
    push_line(&mut lines, "Last Modified", last_modified.to_string());
    match added {
        Some(a) => push_line(&mut lines, "Added", a.to_string()),
        None => {},
    }
    proof {
        assert(l0 =~= Seq::<(Seq<char>, Seq<char>)>::empty());
        assert(lines_view(lines@) =~= info_lines(*song, last_modified@, match added {
            Some(a) => Some(a@),
            None => None,
        }));
    }
    lines
}

fn is_shown_in_info(key: &str) -> (r: bool)
    ensures
        r == shown_in_info(key@),
{
    str_equals(key, "title") || str_equals(key, "album") || str_equals(key, "artist") || str_equals(key, "duration")
}

/// The tags not shown in the info group, in order of name.
fn tags_group(meta: &Vec<(String, MetadataTag)>) -> (r: Vec<(String, String)>)
    ensures
        exists|order: Seq<usize>| tag_order(meta@, order) && lines_view(r@) == ordered_tag_lines(meta@, order),
{
    let mut included: Vec<usize> = Vec::new();
    let mut keys: Vec<(String, String)> = Vec::new();
    for i in 0..meta.len()
        invariant
            included@.len() == keys@.len(),
            forall|p: int| 0 <= p < included@.len() ==> #[trigger] included@[p] < i,
            forall|p: int, q: int| 0 <= p < q < included@.len() ==> #[trigger] included@[p] < #[trigger] included@[q],
            forall|j: int| 0 <= j < i ==> (!shown_in_info(meta@[j].0@) <==> #[trigger] lists(included@, j)),
            forall|p: int| 0 <= p < keys@.len() ==> #[trigger] pair_views(keys@)[p] == (meta@[included@[p] as int].0@, Seq::<char>::empty()),
            i <= meta@.len(),
    {
        let ghost before = included@;
        let ghost kbefore = keys@;
        if !is_shown_in_info(meta[i].0.as_str()) {
            included.push(i);
            keys.push((meta[i].0.clone(), String::new()));
            proof {
                reveal_strlit("");
                assert forall|j: int| 0 <= j < i + 1 implies (!shown_in_info(meta@[j].0@) <==> #[trigger] lists(included@, j)) by {
                    if j < i {
                        if lists(before, j) {
                            let k = choose|k: int| 0 <= k < before.len() && #[trigger] before[k] == j;
                            assert(included@[k] == j);
                        }
                        if lists(included@, j) {
                            let k = choose|k: int| 0 <= k < included@.len() && #[trigger] included@[k] == j;
                            assert(k < before.len());
                            assert(before[k] == j);
                        }
                    } else {
                        assert(included@[included@.len() - 1] == j);
                    }
                }
                assert forall|p: int| 0 <= p < keys@.len() implies #[trigger] pair_views(keys@)[p] == (meta@[included@[p] as int].0@, Seq::<char>::empty()) by {
                    if p < keys@.len() - 1 {
                        assert(keys@[p] == kbefore[p]);
                        assert(included@[p] == before[p]);
                        assert(pair_views(kbefore)[p] == (kbefore[p].0@, kbefore[p].1@));
                        assert(pair_views(kbefore)[p] == (meta@[before[p] as int].0@, Seq::<char>::empty()));
                        assert(pair_views(keys@)[p] == (keys@[p].0@, keys@[p].1@));
                    } else {
                        assert(pair_views(keys@)[p] == (keys@[p].0@, keys@[p].1@));
                        assert(included@[p] == i);
                        assert(keys@[p].0@ == meta@[i as int].0@);
                        assert(keys@[p].1@ == Seq::<char>::empty());
                    }
                }
            }
        } else {
            proof {
                assert forall|j: int| 0 <= j < i + 1 implies (!shown_in_info(meta@[j].0@) <==> #[trigger] lists(included@, j)) by {
                    if j == i && lists(included@, j) {
                        let k = choose|k: int| 0 <= k < included@.len() && #[trigger] included@[k] == j;
                        assert(included@[k] < i);
                    }
                }
            }
        }
    }
    let positions = sorted_positions(&keys);
    let mut order: Vec<usize> = Vec::new();
    let mut lines: Vec<(String, String)> = Vec::new();
    for k in 0..positions.len()
        invariant
            sorts_positions(pair_views(keys@), positions@),
            included@.len() == keys@.len(),
            forall|p: int| 0 <= p < included@.len() ==> #[trigger] included@[p] < meta@.len(),
            order@.len() == k,
            k <= positions@.len(),
            forall|q: int| 0 <= q < k ==> #[trigger] order@[q] == included@[positions@[q] as int],
            lines_view(lines@) == ordered_tag_lines(meta@, order@),
    {
        let idx = included[positions[k]];
        let ghost prev_order = order@;
        order.push(idx);
        push_values(&mut lines, meta[idx].0.as_str(), &meta[idx].1);
        assert(order@.drop_last() =~= prev_order);
        assert(order@.last() == idx);
        assert(lines_view(lines@) == ordered_tag_lines(meta@, order@));
    }
    proof {
        let kv = pair_views(keys@);
        let o = order@;
        assert forall|q: int| 0 <= q < o.len() implies #[trigger] o[q] < meta@.len() by {}
        assert forall|j: int| 0 <= j < meta@.len() implies (!shown_in_info(meta@[j].0@) <==> #[trigger] lists(o, j)) by {
            if !shown_in_info(meta@[j].0@) {
                assert(lists(included@, j));
                let p = choose|p: int| 0 <= p < included@.len() && #[trigger] included@[p] == j;
                assert(lists(positions@, p));
                let k = choose|k: int| 0 <= k < positions@.len() && #[trigger] positions@[k] == p;
                assert(o[k] == j);
            }
            if lists(o, j) {
                let k = choose|k: int| 0 <= k < o.len() && #[trigger] o[k] == j;
                assert(lists(included@, j));
            }
        }
        assert forall|k: int, l: int| 0 <= k < l < o.len() implies #[trigger] o[k] != #[trigger] o[l] by {
            assert(positions@[k] != positions@[l]);
            if positions@[k] < positions@[l] {
                assert(included@[positions@[k] as int] < included@[positions@[l] as int]);
            } else {
                assert(included@[positions@[l] as int] < included@[positions@[k] as int]);
            }
        }
        assert forall|k: int, l: int| 0 <= k < l < o.len() implies !crate::screens::text_lt(meta@[#[trigger] o[l] as int].0@, meta@[#[trigger] o[k] as int].0@) by {
            assert(!pair_lt(kv[positions@[l] as int], kv[positions@[k] as int]));
        }
        assert forall|k: int, l: int| 0 <= k < l < o.len() && meta@[#[trigger] o[k] as int].0@ == meta@[#[trigger] o[l] as int].0@ implies o[k] < o[l] by {
            assert(kv[positions@[k] as int] == kv[positions@[l] as int]);
            assert(positions@[k] < positions@[l]);
            assert(included@[positions@[k] as int] < included@[positions@[l] as int]);
        }
        assert(tag_order(meta@, o));
    }
    lines
}

/// The stickers, in order of name.
fn stickers_group(stickers: &Stickers) -> (r: Vec<(String, String)>)
    ensures
        exists|order: Seq<usize>| sticker_order(stickers@, order) && lines_view(r@) == ordered_sticker_lines(stickers@, order),
{
    let mut keys: Vec<(String, String)> = Vec::new();
    for i in 0..stickers.len()
        invariant
            keys@.len() == i,
            i <= stickers@.len(),
            forall|p: int| 0 <= p < i ==> #[trigger] pair_views(keys@)[p] == (stickers@[p].0@, Seq::<char>::empty()),
    {
        let ghost kbefore = keys@;
        keys.push((stickers[i].0.clone(), String::new()));
        proof {
            assert forall|p: int| 0 <= p < i + 1 implies #[trigger] pair_views(keys@)[p] == (stickers@[p].0@, Seq::<char>::empty()) by {
                assert(pair_views(keys@)[p] == (keys@[p].0@, keys@[p].1@));
                if p < i {
                    assert(keys@[p] == kbefore[p]);
                    assert(pair_views(kbefore)[p] == (kbefore[p].0@, kbefore[p].1@));
                }
            }
        }
    }
    let positions = sorted_positions(&keys);
    let mut lines: Vec<(String, String)> = Vec::new();
    for k in 0..positions.len()
        invariant
            sorts_positions(pair_views(keys@), positions@),
            keys@.len() == stickers@.len(),
            lines_view(lines@) == ordered_sticker_lines(stickers@, positions@.take(k as int)),
            k <= positions@.len(),
    {
        let idx = positions[k];
        let ghost prev = lines@;
        lines.push((stickers[idx].0.clone(), stickers[idx].1.clone()));
        assert(positions@.take(k + 1) =~= positions@.take(k as int).push(idx));
        assert(lines_view(lines@) =~= lines_view(prev).push((stickers@[idx as int].0@, stickers@[idx as int].1@)));
        assert(ordered_sticker_lines(stickers@, positions@.take(k as int).push(idx)) =~= ordered_sticker_lines(stickers@, positions@.take(k as int)).push((stickers@[idx as int].0@, stickers@[idx as int].1@)));
        assert(lines_view(lines@) =~= ordered_sticker_lines(stickers@, positions@.take(k + 1)));
    }
    proof {
        let o = positions@;
        let kv = pair_views(keys@);
        assert(o.take(o.len() as int) =~= o);
        assert forall|k: int, l: int| 0 <= k < l < o.len() implies !crate::screens::text_lt(stickers@[#[trigger] o[l] as int].0@, stickers@[#[trigger] o[k] as int].0@) by {
            assert(!pair_lt(kv[o[l] as int], kv[o[k] as int]));
        }
        assert forall|k: int, l: int| 0 <= k < l < o.len() && stickers@[#[trigger] o[k] as int].0@ == stickers@[#[trigger] o[l] as int].0@ implies o[k] < o[l] by {
            assert(kv[o[k] as int] == kv[o[l] as int]);
        }
        assert(sticker_order(stickers@, o));
    }
    lines
}

impl Song {
    /// The preview of the song: an info group (file, file name, titles,
    /// artists, albums, length, modification and addition times), a group
    /// of its other tags sorted by name, and, when it has any, a group of
    /// its stickers sorted by name.
    pub fn to_preview(&self, last_modified: &str, added: Option<&str>, stickers: Option<&Stickers>) -> (r: Vec<PreviewGroup>)
        ensures
            r@.len() == if stickers matches Some(st) && st@.len() > 0 {
                3int
            } else {
                2int
            },
            r@[0].header@ == " --- [Info]"@,
            lines_view(r@[0].lines@) == info_lines(*self, last_modified@, match added {
                Some(a) => Some(a@),
                None => None,
            }),
            r@[1].header@ == " --- [Tags]"@,
            exists|order: Seq<usize>| tag_order(self.metadata@, order) && lines_view(r@[1].lines@) == ordered_tag_lines(self.metadata@, order),
            r@.len() == 3 ==> r@[2].header@ == " --- [Stickers]"@ && (stickers matches Some(st) && exists|order: Seq<usize>|
                sticker_order(st@, order) && lines_view(r@[2].lines@) == ordered_sticker_lines(st@, order)),
    {
        let info = PreviewGroup { header: String::from_str(" --- [Info]"), lines: info_group(self, last_modified, added) };
        let tags = PreviewGroup { header: String::from_str(" --- [Tags]"), lines: tags_group(&self.metadata) };
        let mut r = vec![info, tags];
        match stickers {
            Some(st) => {
                if st.len() > 0 {
                    r.push(PreviewGroup { header: String::from_str(" --- [Stickers]"), lines: stickers_group(st) });
                }
            },
            None => {},
        }
        r
    }
}

} // verus!
