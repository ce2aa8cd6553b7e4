//! How the artists pane turns an artist's songs into albums: songs grouped
//! by album, date and album tag, groups sorted by name or by date, and,
//! when dates are not shown, groups of the same name merged.
use vstd::prelude::*;

use crate::song::{first_value, tag_lookup, Song};
use crate::sorted::{lists, pair_lt, pair_views, sorted_positions, sorts_positions};
use crate::screens::text_lt;
use crate::text::str_equals;

verus! {

/// Whether albums of the same name but different dates are told apart.
#[derive(Clone, Copy, PartialEq, Eq, Structural, Debug)]
pub enum AlbumDisplayMode {
    SplitByDate,
    NameOnly,
}

/// The order of the albums.
#[derive(Clone, Copy, PartialEq, Eq, Structural, Debug)]
pub enum AlbumSortMode {
    Name,
    Date,
}

/// An album of an artist: the name shown, the album tag it came from (empty
/// when the songs have none), and its songs, as positions in the artist's
/// list of songs.
pub struct CachedAlbum {
    pub name: String,
    pub original_name: String,
    pub songs: Vec<usize>,
}

/// What decides a song's album: the album it is listed under, its date,
/// and the album tag it came from.
pub struct AlbumKey {
    pub album: String,
    pub date: String,
    pub original: Option<String>,
}

/// The album tag of a song, if it has one.
pub open spec fn original_of(s: Song) -> Option<Seq<char>> {
    match tag_lookup(s.metadata@, "album"@) {
        Some(vs) => Some(first_value(vs)),
        None => None,
    }
}

/// The album a song is listed under in the artists pane.
pub open spec fn album_of(s: Song) -> Seq<char> {
    match original_of(s) {
        Some(a) => a,
        None => "<no album>"@,
    }
}

/// The date a song is listed under in the artists pane.
pub open spec fn date_of(s: Song) -> Seq<char> {
    match tag_lookup(s.metadata@, "date"@) {
        Some(vs) => first_value(vs),
        None => "<no date>"@,
    }
}

/// The album tag of a key, as plain text.
pub open spec fn original_view(k: AlbumKey) -> Option<Seq<char>> {
    match k.original {
        Some(o) => Some(o@),
        None => None,
    }
}

/// What songs of one group share.
pub open spec fn group_key(k: AlbumKey) -> (Seq<char>, Seq<char>, Option<Seq<char>>) {
    (k.album@, k.date@, original_view(k))
}

/// What groups are sorted by: the album and then the date, or the date.
pub open spec fn sort_key(k: AlbumKey, mode: AlbumSortMode) -> (Seq<char>, Seq<char>) {
    match mode {
        AlbumSortMode::Name => (k.album@, k.date@),
        AlbumSortMode::Date => (k.date@, Seq::empty()),
    }
}

/// The name an album is shown with.
pub open spec fn shown_name(k: AlbumKey, mode: AlbumDisplayMode) -> Seq<char> {
    match mode {
        AlbumDisplayMode::SplitByDate => "("@ + k.date@ + ") "@ + k.album@,
        AlbumDisplayMode::NameOnly => k.album@,
    }
}

fn first_of(song: &Song, key: &str) -> (r: Option<String>)
    ensures
        match tag_lookup(song.metadata@, key@) {
            Some(vs) => r matches Some(v) && v@ == first_value(vs),
            None => r is None,
        },
{
    match crate::song::find_tag(&song.metadata, key) {
        Some(i) => Some(song.metadata[i].1.first()),
        None => None,
    }
}

/// The key of a song in the artists pane: its first album tag (or `<no
/// album>`), its first date tag (or `<no date>`), and its album tag.
pub fn artist_album_key(song: &Song) -> (r: AlbumKey)
    ensures
        r.album@ == album_of(*song),
        r.date@ == date_of(*song),
        original_view(r) == original_of(*song),
{
    let original = first_of(song, "album");
    let album = match &original {
        Some(a) => a.clone(),
        None => String::from_str("<no album>"),
    };
    let date = match first_of(song, "date") {
        Some(d) => d,
        None => String::from_str("<no date>"),
    };
    AlbumKey { album, date, original }
}

/// Each key is the artists-pane key of the song at the same position.
pub open spec fn keys_of_songs(keys: Seq<AlbumKey>, songs: Seq<Song>) -> bool {
    &&& keys.len() == songs.len()
    &&& forall|i: int| 0 <= i < songs.len() ==> {
        &&& (#[trigger] keys[i]).album@ == album_of(songs[i])
        &&& keys[i].date@ == date_of(songs[i])
        &&& original_view(keys[i]) == original_of(songs[i])
    }
}

/// The artists-pane keys of a list of songs, in order.
pub fn artist_keys(songs: &Vec<Song>) -> (r: Vec<AlbumKey>)
    ensures
        keys_of_songs(r@, songs@),
{
    let mut keys: Vec<AlbumKey> = Vec::new();
    for i in 0..songs.len()
        invariant
            keys_of_songs(keys@, songs@.take(i as int)),
    {
        let k = artist_album_key(&songs[i]);
        keys.push(k);
        proof {
            assert forall|j: int| 0 <= j < i + 1 implies {
                &&& (#[trigger] keys@[j]).album@ == album_of(songs@.take(i + 1)[j])
                &&& keys@[j].date@ == date_of(songs@.take(i + 1)[j])
                &&& original_view(keys@[j]) == original_of(songs@.take(i + 1)[j])
            } by {
                assert(songs@.take(i + 1)[j] == songs@[j]);
                if j < i {
                    assert(songs@.take(i as int)[j] == songs@[j]);
                }
            }
        }
    }
    assert(songs@.take(songs@.len() as int) =~= songs@);
    keys
}

fn same_group(a: &AlbumKey, b: &AlbumKey) -> (r: bool)
    ensures
        r == (group_key(*a) == group_key(*b)),
{
    let same_original = match (&a.original, &b.original) {
        (Some(x), Some(y)) => str_equals(x.as_str(), y.as_str()),
        (None, None) => true,
        _ => false,
    };
    same_original && str_equals(a.album.as_str(), b.album.as_str()) && str_equals(a.date.as_str(), b.date.as_str())
}

/// The groups are a partition of the songs `0..i` into runs of equal key:
/// each group is non-empty and increasing, its songs share the key of its
/// first song, no two groups share a key, and every song is in a group.
pub open spec fn grouped(data: Seq<AlbumKey>, groups: Seq<Vec<usize>>, i: int) -> bool {
    &&& forall|g: int| 0 <= g < groups.len() ==> #[trigger] groups[g]@.len() > 0
    &&& forall|g: int, p: int|
        0 <= g < groups.len() && 0 <= p < groups[g]@.len() ==> #[trigger] groups[g]@[p] < i
            && group_key(data[groups[g]@[p] as int]) == group_key(data[groups[g]@[0] as int])
    &&& forall|g: int, p: int, q: int|
        0 <= g < groups.len() && 0 <= p < q < groups[g]@.len() ==> #[trigger] groups[g]@[p] < #[trigger] groups[g]@[q]
    &&& forall|g: int, h: int|
        0 <= g < h < groups.len() ==> group_key(data[(#[trigger] groups[g])@[0] as int]) != group_key(data[(#[trigger] groups[h])@[0] as int])
    &&& forall|j: int| 0 <= j < i ==> #[trigger] in_some_group(groups, j)
}

/// Song `j` is in one of the groups.
pub open spec fn in_some_group(groups: Seq<Vec<usize>>, j: int) -> bool {
    exists|g: int, p: int| 0 <= g < groups.len() && 0 <= p < groups[g]@.len() && #[trigger] groups[g]@[p] == j
}

/// Groups the songs by album, date and album tag, in the order their first
/// songs come.
pub fn group_songs(data: &Vec<AlbumKey>) -> (r: Vec<Vec<usize>>)
    ensures
        grouped(data@, r@, data@.len() as int),
{
    let mut groups: Vec<Vec<usize>> = Vec::new();
    let n = data.len();
    for i in 0..n
        invariant
            n == data@.len(),
            grouped(data@, groups@, i as int),
    {
        let ghost before = groups@;
        let mut g: usize = 0;
        let mut found = false;
        while g < groups.len() && !found
            invariant
                groups@ == before,
                grouped(data@, before, i as int),
                g <= before.len(),
                i < n,
                n == data@.len(),
                found ==> g < before.len() && group_key(data@[before[g as int]@[0] as int]) == group_key(data@[i as int]),
                forall|h: int| 0 <= h < g ==> group_key(data@[(#[trigger] before[h])@[0] as int]) != group_key(data@[i as int]),
            decreases before.len() - g + (if found { 0int } else { 1int }),
        {
            let first = groups[g][0];
            if same_group(&data[first], &data[i]) {
                found = true;
            } else {
                g = g + 1;
            }
        }
        if found {
            let mut grp = groups.remove(g);
            grp.push(i);
            groups.insert(g, grp);
            proof {
                let after = groups@;
                assert(after.len() == before.len());
                assert forall|h: int| 0 <= h < after.len() && h != g implies #[trigger] after[h] == before[h] by {}
                assert(after[g as int]@ == before[g as int]@.push(i));
                assert forall|h: int| 0 <= h < after.len() implies #[trigger] after[h]@.len() > 0 by {
                    if h != g { assert(after[h] == before[h]); }
                }
                assert forall|h: int, p: int| 0 <= h < after.len() && 0 <= p < after[h]@.len() implies #[trigger] after[h]@[p] < i + 1
                    && group_key(data@[after[h]@[p] as int]) == group_key(data@[after[h]@[0] as int]) by {
                    if h != g {
                        assert(after[h] == before[h]);
                    } else if p < before[g as int]@.len() {
                        assert(after[h]@[p] == before[h]@[p]);
                        assert(after[h]@[0] == before[h]@[0]);
                    } else {
                        assert(after[h]@[0] == before[h]@[0]);
                    }
                }
                assert forall|h: int, p: int, q: int| 0 <= h < after.len() && 0 <= p < q < after[h]@.len() implies #[trigger] after[h]@[p] < #[trigger] after[h]@[q] by {
                    if h != g {
                        assert(after[h] == before[h]);
                    } else if q < before[g as int]@.len() {
                        assert(after[h]@[p] == before[h]@[p]);
                        assert(after[h]@[q] == before[h]@[q]);
                    } else {
                        assert(after[h]@[p] == before[h]@[p]);
                        assert(before[h]@[p] < i);
                    }
                }
                assert forall|h: int, k: int| 0 <= h < k < after.len() implies group_key(data@[(#[trigger] after[h])@[0] as int]) != group_key(data@[(#[trigger] after[k])@[0] as int]) by {
                    assert(after[h]@[0] == before[h]@[0]);
                    assert(after[k]@[0] == before[k]@[0]);
                    assert(group_key(data@[before[h]@[0] as int]) != group_key(data@[before[k]@[0] as int]));
                }
                assert forall|j: int| 0 <= j < i + 1 implies #[trigger] in_some_group(after, j) by {
                    if j < i {
                        assert(in_some_group(before, j));
                        let (h, p) = choose|h: int, p: int| 0 <= h < before.len() && 0 <= p < before[h]@.len() && #[trigger] before[h]@[p] == j;
                        if h == g {
                            assert(after[h]@[p] == before[h]@[p]);
                        } else {
                            assert(after[h] == before[h]);
                        }
                        assert(after[h]@[p] == j);
                    } else {
                        let p = before[g as int]@.len() as int;
                        assert(after[g as int]@[p] == j);
                    }
                }
            }
        } else {
            groups.push(vec![i]);
            proof {
                let after = groups@;
                assert forall|h: int| 0 <= h < before.len() implies #[trigger] after[h] == before[h] by {}
                assert(after[before.len() as int]@ == seq![i]);
                assert forall|h: int, p: int| 0 <= h < after.len() && 0 <= p < after[h]@.len() implies #[trigger] after[h]@[p] < i + 1
                    && group_key(data@[after[h]@[p] as int]) == group_key(data@[after[h]@[0] as int]) by {
                    if h < before.len() {
                        assert(after[h] == before[h]);
                    }
                }
                assert forall|h: int, p: int, q: int| 0 <= h < after.len() && 0 <= p < q < after[h]@.len() implies #[trigger] after[h]@[p] < #[trigger] after[h]@[q] by {
                    if h < before.len() {
                        assert(after[h] == before[h]);
                    }
                }
                assert forall|h: int, k: int| 0 <= h < k < after.len() implies group_key(data@[(#[trigger] after[h])@[0] as int]) != group_key(data@[(#[trigger] after[k])@[0] as int]) by {
                    assert(after[h] == before[h]);
                    if k < before.len() {
                        assert(after[k] == before[k]);
                    }
                }
                assert forall|j: int| 0 <= j < i + 1 implies #[trigger] in_some_group(after, j) by {
                    if j < i {
                        assert(in_some_group(before, j));
                        let (h, p) = choose|h: int, p: int| 0 <= h < before.len() && 0 <= p < before[h]@.len() && #[trigger] before[h]@[p] == j;
                        assert(after[h] == before[h]);
                        assert(after[h]@[p] == j);
                    } else {
                        assert(after[before.len() as int]@[0] == j);
                    }
                }
            }
        }
    }
    groups
}

/// Song `m` is in group `g`.
pub open spec fn in_group(groups: Seq<Vec<usize>>, g: int, m: int) -> bool {
    exists|p: int| 0 <= p < groups[g]@.len() && #[trigger] groups[g]@[p] == m
}

/// Song `m` is in one of the albums.
pub open spec fn in_albums(albums: Seq<CachedAlbum>, m: int) -> bool {
    exists|a: int, p: int| 0 <= a < albums.len() && 0 <= p < albums[a].songs@.len() && #[trigger] albums[a].songs@[p] == m
}

/// A song is in at most one group.
proof fn lemma_groups_disjoint(data: Seq<AlbumKey>, groups: Seq<Vec<usize>>, g: int, h: int, m: int)
    requires
        grouped(data, groups, data.len() as int),
        0 <= g < groups.len(),
        0 <= h < groups.len(),
        in_group(groups, g, m),
        in_group(groups, h, m),
    ensures
        g == h,
{
    let p = choose|p: int| 0 <= p < groups[g]@.len() && #[trigger] groups[g]@[p] == m;
    let q = choose|q: int| 0 <= q < groups[h]@.len() && #[trigger] groups[h]@[q] == m;
    assert(group_key(data[groups[g]@[p] as int]) == group_key(data[groups[g]@[0] as int]));
    assert(group_key(data[groups[h]@[q] as int]) == group_key(data[groups[h]@[0] as int]));
    if g < h {
        assert(group_key(data[groups[g]@[0] as int]) != group_key(data[groups[h]@[0] as int]));
    } else if h < g {
        assert(group_key(data[groups[h]@[0] as int]) != group_key(data[groups[g]@[0] as int]));
    }
}

/// The album tag, or nothing.
pub open spec fn or_empty(o: Option<Seq<char>>) -> Seq<char> {
    match o {
        Some(s) => s,
        None => Seq::empty(),
    }
}

/// The albums an artist's songs make: every song in exactly one album;
/// each album non-empty, named after its songs, with the album tag of its
/// first song; in the split mode the songs of an album share album, date
/// and album tag, in the merged mode no two albums share a name; the
/// albums ordered by the sort key of their first songs.
pub open spec fn albums_of(data: Seq<AlbumKey>, albums: Seq<CachedAlbum>, display: AlbumDisplayMode, sort: AlbumSortMode) -> bool {
    &&& forall|m: int| 0 <= m < data.len() ==> #[trigger] in_albums(albums, m)
    &&& forall|a: int| 0 <= a < albums.len() ==> (#[trigger] albums[a]).songs@.len() > 0
    &&& forall|a: int, p: int|
        0 <= a < albums.len() && 0 <= p < albums[a].songs@.len() ==> #[trigger] albums[a].songs@[p] < data.len()
            && shown_name(data[albums[a].songs@[p] as int], display) == albums[a].name@
    &&& forall|a: int| 0 <= a < albums.len() ==> (#[trigger] albums[a]).original_name@ == or_empty(original_view(data[albums[a].songs@[0] as int]))
    &&& forall|a: int, p: int, b: int, q: int|
        0 <= a < albums.len() && 0 <= b < albums.len() && 0 <= p < albums[a].songs@.len() && 0 <= q < albums[b].songs@.len()
            && #[trigger] albums[a].songs@[p] == #[trigger] albums[b].songs@[q] ==> a == b && p == q
    &&& display == AlbumDisplayMode::SplitByDate ==> forall|a: int, p: int|
        0 <= a < albums.len() && 0 <= p < albums[a].songs@.len() ==> group_key(data[#[trigger] albums[a].songs@[p] as int]) == group_key(data[albums[a].songs@[0] as int])
    &&& display == AlbumDisplayMode::NameOnly ==> forall|a: int, b: int|
        0 <= a < b < albums.len() ==> (#[trigger] albums[a]).name@ != (#[trigger] albums[b]).name@
    &&& forall|a: int, b: int|
        0 <= a < b < albums.len() ==> !pair_lt(
            sort_key(data[(#[trigger] albums[b]).songs@[0] as int], sort),
            sort_key(data[(#[trigger] albums[a]).songs@[0] as int], sort),
        )
    &&& display == AlbumDisplayMode::SplitByDate ==> split_apart(data, albums)
    &&& sorted_within(data, albums, sort)
}

/// No two albums share album, date and album tag.
pub open spec fn split_apart(data: Seq<AlbumKey>, albums: Seq<CachedAlbum>) -> bool {
    forall|a: int, b: int|
        0 <= a < b < albums.len() ==> group_key(data[(#[trigger] albums[a]).songs@[0] as int])
            != group_key(data[(#[trigger] albums[b]).songs@[0] as int])
}

/// The songs of each album come in the order of their sort keys, so an
/// album's first song is one of its earliest.
pub open spec fn sorted_within(data: Seq<AlbumKey>, albums: Seq<CachedAlbum>, sort: AlbumSortMode) -> bool {
    forall|a: int, p: int, q: int|
        0 <= a < albums.len() && 0 <= p < q < albums[a].songs@.len() ==> !pair_lt(
            sort_key(data[#[trigger] albums[a].songs@[q] as int], sort),
            sort_key(data[#[trigger] albums[a].songs@[p] as int], sort),
        )
}

proof fn lemma_text_lt_irreflexive(s: Seq<char>)
    ensures
        !text_lt(s, s),
    decreases s.len(),
{
    if s.len() > 0 {
        lemma_text_lt_irreflexive(s.drop_first());
    }
}

/// Songs of one group have the group's sort key.
proof fn lemma_group_sort_key(data: Seq<AlbumKey>, groups: Seq<Vec<usize>>, g: int, m: int, sort: AlbumSortMode)
    requires
        grouped(data, groups, data.len() as int),
        0 <= g < groups.len(),
        in_group(groups, g, m),
    ensures
        sort_key(data[m], sort) == sort_key(data[groups[g]@[0] as int], sort),
{
    let p = choose|p: int| 0 <= p < groups[g]@.len() && #[trigger] groups[g]@[p] == m;
    assert(group_key(data[groups[g]@[p] as int]) == group_key(data[groups[g]@[0] as int]));
}

/// A song of a group merged before the `k`-th in sorted order has no later
/// sort key than the `k`-th group.
proof fn lemma_earlier_song_key(
    data: Seq<AlbumKey>,
    groups: Seq<Vec<usize>>,
    order: Seq<usize>,
    kv: Seq<(Seq<char>, Seq<char>)>,
    k: int,
    m: int,
    sort: AlbumSortMode,
)
    requires
        grouped(data, groups, data.len() as int),
        distinct_groups(order, groups.len() as int),
        kv.len() == groups.len(),
        forall|h: int| 0 <= h < groups.len() ==> #[trigger] kv[h] == sort_key(data[groups[h]@[0] as int], sort),
        sorts_positions(kv, order),
        0 <= k < order.len(),
        from_processed(groups, order, k, m),
    ensures
        !pair_lt(sort_key(data[groups[order[k] as int]@[0] as int], sort), sort_key(data[m], sort)),
{
    let q = choose|q: int| 0 <= q < k && #[trigger] in_group(groups, order[q] as int, m);
    lemma_group_sort_key(data, groups, order[q] as int, m, sort);
    assert(!pair_lt(kv[order[k] as int], kv[order[q] as int]));
}


fn shown_name_exec(key: &AlbumKey, display: AlbumDisplayMode) -> (r: String)
    ensures
        r@ == shown_name(*key, display),
{
    match display {
        AlbumDisplayMode::SplitByDate => {
            let mut r = String::from_str("(");
            r.append(key.date.as_str());
            r.append(") ");
            r.append(key.album.as_str());
            proof {
                reveal_strlit("(");
                reveal_strlit(") ");
            }
            r
        },
        AlbumDisplayMode::NameOnly => key.album.clone(),
    }
}

fn sort_key_exec(key: &AlbumKey, sort: AlbumSortMode) -> (r: (String, String))
    ensures
        (r.0@, r.1@) == sort_key(*key, sort),
{
    match sort {
        AlbumSortMode::Name => (key.album.clone(), key.date.clone()),
        AlbumSortMode::Date => (key.date.clone(), String::new()),
    }
}

fn copy_indices(v: &Vec<usize>) -> (r: Vec<usize>)
    ensures
        r@ == v@,
{
    let mut r: Vec<usize> = Vec::new();
    for i in 0..v.len()
        invariant
            r@ == v@.take(i as int),
    {
        r.push(v[i]);
        assert(r@ =~= v@.take(i + 1));
    }
    assert(v@.take(v@.len() as int) =~= v@);
    r
}

/// Song `m` is in one of the first `k` groups of `order`.
pub open spec fn from_processed(groups: Seq<Vec<usize>>, order: Seq<usize>, k: int, m: int) -> bool {
    exists|q: int| 0 <= q < k && #[trigger] in_group(groups, order[q] as int, m)
}

/// What holds after merging the first `k` groups of `order` into `albums`;
/// album `a` was started by group `order[creators[a]]`.
pub open spec fn merge_inv(
    data: Seq<AlbumKey>,
    groups: Seq<Vec<usize>>,
    order: Seq<usize>,
    albums: Seq<CachedAlbum>,
    creators: Seq<int>,
    k: int,
    display: AlbumDisplayMode,
) -> bool {
    &&& forall|a: int| 0 <= a < albums.len() ==> (#[trigger] albums[a]).songs@.len() > 0
    &&& forall|a: int, p: int|
        0 <= a < albums.len() && 0 <= p < albums[a].songs@.len() ==> #[trigger] albums[a].songs@[p] < data.len()
            && shown_name(data[albums[a].songs@[p] as int], display) == albums[a].name@
            && from_processed(groups, order, k, albums[a].songs@[p] as int)
    &&& forall|a: int| 0 <= a < albums.len() ==> (#[trigger] albums[a]).original_name@ == or_empty(original_view(data[albums[a].songs@[0] as int]))
    &&& forall|a: int, p: int, b: int, q: int|
        0 <= a < albums.len() && 0 <= b < albums.len() && 0 <= p < albums[a].songs@.len() && 0 <= q < albums[b].songs@.len()
            && #[trigger] albums[a].songs@[p] == #[trigger] albums[b].songs@[q] ==> a == b && p == q
    &&& display == AlbumDisplayMode::SplitByDate ==> forall|a: int, p: int|
        0 <= a < albums.len() && 0 <= p < albums[a].songs@.len() ==> group_key(data[#[trigger] albums[a].songs@[p] as int]) == group_key(data[albums[a].songs@[0] as int])
    &&& display == AlbumDisplayMode::NameOnly ==> forall|a: int, b: int|
        0 <= a < b < albums.len() ==> (#[trigger] albums[a]).name@ != (#[trigger] albums[b]).name@
    &&& creators.len() == albums.len()
    &&& forall|a: int| 0 <= a < albums.len() ==> 0 <= #[trigger] creators[a] < k && albums[a].songs@[0] == groups[order[creators[a]] as int]@[0]
    &&& forall|a: int, b: int| 0 <= a < b < albums.len() ==> #[trigger] creators[a] < #[trigger] creators[b]
    &&& forall|q: int, p: int| 0 <= q < k && 0 <= p < groups[order[q] as int]@.len() ==> #[trigger] in_albums(albums, groups[order[q] as int]@[p] as int)
}

fn append_indices(v: &mut Vec<usize>, w: &Vec<usize>)
    ensures
        final(v)@ == old(v)@ + w@,
{
    for i in 0..w.len()
        invariant
            v@ == old(v)@ + w@.take(i as int),
    {
        v.push(w[i]);
        assert(v@ =~= old(v)@ + w@.take(i + 1));
    }
    assert(w@.take(w@.len() as int) =~= w@);
}

fn find_album(albums: &Vec<CachedAlbum>, name: &str) -> (r: Option<usize>)
    ensures
        match r {
            Some(a) => a < albums@.len() && albums@[a as int].name@ == name@,
            None => forall|a: int| 0 <= a < albums@.len() ==> (#[trigger] albums@[a]).name@ != name@,
        },
{
    for a in 0..albums.len()
        invariant
            forall|b: int| 0 <= b < a ==> (#[trigger] albums@[b]).name@ != name@,
    {
        if str_equals(albums[a].name.as_str(), name) {
            return Some(a);
        }
    }
    None
}

/// The positions of `order` are distinct groups.
pub open spec fn distinct_groups(order: Seq<usize>, ngroups: int) -> bool {
    &&& forall|q: int| 0 <= q < order.len() ==> #[trigger] order[q] < ngroups
    &&& forall|q: int, r: int| 0 <= q < r < order.len() ==> #[trigger] order[q] != #[trigger] order[r]
}

proof fn lemma_processed_grows(groups: Seq<Vec<usize>>, order: Seq<usize>, k: int, m: int)
    requires
        from_processed(groups, order, k, m),
    ensures
        from_processed(groups, order, k + 1, m),
{
    let q = choose|q: int| 0 <= q < k && #[trigger] in_group(groups, order[q] as int, m);
    assert(in_group(groups, order[q] as int, m));
}

/// A song of the group at `order[k]` is in none of the groups before it.
proof fn lemma_new_song_unseen(data: Seq<AlbumKey>, groups: Seq<Vec<usize>>, order: Seq<usize>, k: int, m: int)
    requires
        grouped(data, groups, data.len() as int),
        distinct_groups(order, groups.len() as int),
        0 <= k < order.len(),
        in_group(groups, order[k] as int, m),
    ensures
        !from_processed(groups, order, k, m),
{
    if from_processed(groups, order, k, m) {
        let q = choose|q: int| 0 <= q < k && #[trigger] in_group(groups, order[q] as int, m);
        lemma_groups_disjoint(data, groups, order[q] as int, order[k] as int, m);
        assert(order[q] != order[k]);
    }
}

proof fn lemma_merge_push(
    data: Seq<AlbumKey>,
    groups: Seq<Vec<usize>>,
    order: Seq<usize>,
    albums: Seq<CachedAlbum>,
    creators: Seq<int>,
    k: int,
    display: AlbumDisplayMode,
    album: CachedAlbum,
)
    requires
        grouped(data, groups, data.len() as int),
        distinct_groups(order, groups.len() as int),
        0 <= k < order.len(),
        merge_inv(data, groups, order, albums, creators, k, display),
        album.songs@ == groups[order[k] as int]@,
        album.name@ == shown_name(data[groups[order[k] as int]@[0] as int], display),
        album.original_name@ == or_empty(original_view(data[groups[order[k] as int]@[0] as int])),
        display == AlbumDisplayMode::NameOnly ==> forall|a: int| 0 <= a < albums.len() ==> (#[trigger] albums[a]).name@ != album.name@,
    ensures
        merge_inv(data, groups, order, albums.push(album), creators.push(k), k + 1, display),
{
    let g = order[k] as int;
    let na = albums.push(album);
    let nc = creators.push(k);
    let n = albums.len() as int;
    assert(na[n] == album);
    assert forall|a: int| 0 <= a < n implies #[trigger] na[a] == albums[a] by {}
    assert(groups[g]@.len() > 0);
    assert forall|a: int, p: int| 0 <= a < na.len() && 0 <= p < na[a].songs@.len() implies #[trigger] na[a].songs@[p] < data.len()
        && shown_name(data[na[a].songs@[p] as int], display) == na[a].name@
        && from_processed(groups, order, k + 1, na[a].songs@[p] as int) by {
        if a < n {
            assert(na[a] == albums[a]);
            lemma_processed_grows(groups, order, k, albums[a].songs@[p] as int);
        } else {
            let m = groups[g]@[p];
            assert(na[a].songs@[p] == m);
            assert(group_key(data[m as int]) == group_key(data[groups[g]@[0] as int]));
            assert(in_group(groups, order[k] as int, m as int));
        }
    }
    assert forall|a: int, p: int, b: int, q: int|
        0 <= a < na.len() && 0 <= b < na.len() && 0 <= p < na[a].songs@.len() && 0 <= q < na[b].songs@.len()
            && #[trigger] na[a].songs@[p] == #[trigger] na[b].songs@[q] implies a == b && p == q by {
        if a < n && b < n {
            assert(na[a] == albums[a] && na[b] == albums[b]);
        } else if a == n && b == n {
            if p < q {
                assert(groups[g]@[p] < groups[g]@[q]);
            } else if q < p {
                assert(groups[g]@[q] < groups[g]@[p]);
            }
        } else if a == n {
            let m = groups[g]@[p] as int;
            assert(in_group(groups, g, m));
            assert(na[b] == albums[b]);
            assert(from_processed(groups, order, k, albums[b].songs@[q] as int));
            lemma_new_song_unseen(data, groups, order, k, m);
        } else {
            let m = groups[g]@[q] as int;
            assert(in_group(groups, g, m));
            assert(na[a] == albums[a]);
            assert(from_processed(groups, order, k, albums[a].songs@[p] as int));
            lemma_new_song_unseen(data, groups, order, k, m);
        }
    }
    assert forall|q: int, p: int| 0 <= q < k + 1 && 0 <= p < groups[order[q] as int]@.len() implies #[trigger] in_albums(na, groups[order[q] as int]@[p] as int) by {
        let m = groups[order[q] as int]@[p] as int;
        if q < k {
            assert(in_albums(albums, m));
            let (a, r) = choose|a: int, r: int| 0 <= a < albums.len() && 0 <= r < albums[a].songs@.len() && #[trigger] albums[a].songs@[r] == m;
            assert(na[a] == albums[a]);
            assert(na[a].songs@[r] == m);
        } else {
            assert(na[n].songs@[p] == m);
        }
    }
    assert forall|a: int| 0 <= a < na.len() implies 0 <= #[trigger] nc[a] < k + 1 && na[a].songs@[0] == groups[order[nc[a]] as int]@[0] by {
        if a < n {
            assert(nc[a] == creators[a]);
        }
    }
    assert forall|a: int, b: int| 0 <= a < b < na.len() implies #[trigger] nc[a] < #[trigger] nc[b] by {
        if b < n {
            assert(nc[a] == creators[a] && nc[b] == creators[b]);
        } else {
            assert(nc[a] == creators[a]);
        }
    }
    if display == AlbumDisplayMode::SplitByDate {
        assert forall|a: int, p: int| 0 <= a < na.len() && 0 <= p < na[a].songs@.len() implies group_key(data[#[trigger] na[a].songs@[p] as int]) == group_key(data[na[a].songs@[0] as int]) by {
            if a < n {
                assert(na[a] == albums[a]);
            } else {
                assert(group_key(data[groups[g]@[p] as int]) == group_key(data[groups[g]@[0] as int]));
            }
        }
    }
    if display == AlbumDisplayMode::NameOnly {
        assert forall|a: int, b: int| 0 <= a < b < na.len() implies (#[trigger] na[a]).name@ != (#[trigger] na[b]).name@ by {
            if b < n {
                assert(na[a] == albums[a] && na[b] == albums[b]);
            } else {
                assert(na[a] == albums[a]);
            }
        }
    }
}

proof fn lemma_merge_extend(
    data: Seq<AlbumKey>,
    groups: Seq<Vec<usize>>,
    order: Seq<usize>,
    albums: Seq<CachedAlbum>,
    creators: Seq<int>,
    k: int,
    display: AlbumDisplayMode,
    a0: int,
    album: CachedAlbum,
)
    requires
        grouped(data, groups, data.len() as int),
        distinct_groups(order, groups.len() as int),
        0 <= k < order.len(),
        merge_inv(data, groups, order, albums, creators, k, display),
        display == AlbumDisplayMode::NameOnly,
        0 <= a0 < albums.len(),
        album.songs@ == albums[a0].songs@ + groups[order[k] as int]@,
        album.name@ == albums[a0].name@,
        album.original_name@ == albums[a0].original_name@,
        album.name@ == shown_name(data[groups[order[k] as int]@[0] as int], display),
    ensures
        merge_inv(data, groups, order, albums.update(a0, album), creators, k + 1, display),
{
    let g = order[k] as int;
    let na = albums.update(a0, album);
    let old_len = albums[a0].songs@.len() as int;
    assert(old_len > 0);
    assert(album.songs@[0] == albums[a0].songs@[0]);
    assert forall|a: int| 0 <= a < na.len() && a != a0 implies #[trigger] na[a] == albums[a] by {}
    assert forall|a: int, p: int| 0 <= a < na.len() && 0 <= p < na[a].songs@.len() implies #[trigger] na[a].songs@[p] < data.len()
        && shown_name(data[na[a].songs@[p] as int], display) == na[a].name@
        && from_processed(groups, order, k + 1, na[a].songs@[p] as int) by {
        if a != a0 {
            assert(na[a] == albums[a]);
            lemma_processed_grows(groups, order, k, albums[a].songs@[p] as int);
        } else if p < old_len {
            assert(na[a].songs@[p] == albums[a0].songs@[p]);
            lemma_processed_grows(groups, order, k, albums[a0].songs@[p] as int);
        } else {
            let m = groups[g]@[p - old_len];
            assert(na[a].songs@[p] == m);
            assert(group_key(data[m as int]) == group_key(data[groups[g]@[0] as int]));
            assert(in_group(groups, order[k] as int, m as int));
        }
    }
    assert forall|a: int, p: int, b: int, q: int|
        0 <= a < na.len() && 0 <= b < na.len() && 0 <= p < na[a].songs@.len() && 0 <= q < na[b].songs@.len()
            && #[trigger] na[a].songs@[p] == #[trigger] na[b].songs@[q] implies a == b && p == q by {
        let new_p = a == a0 && p >= old_len;
        let new_q = b == a0 && q >= old_len;
        if !new_p && !new_q {
            let ap = if a == a0 { albums[a0].songs@[p] } else { albums[a].songs@[p] };
            assert(na[a].songs@[p] == albums[a].songs@[p]);
            assert(na[b].songs@[q] == albums[b].songs@[q]);
        } else if new_p && new_q {
            let i = p - old_len;
            let j = q - old_len;
            if i < j {
                assert(groups[g]@[i] < groups[g]@[j]);
            } else if j < i {
                assert(groups[g]@[j] < groups[g]@[i]);
            }
        } else if new_p {
            let m = groups[g]@[p - old_len] as int;
            assert(in_group(groups, g, m));
            assert(na[b].songs@[q] == albums[b].songs@[q]);
            assert(from_processed(groups, order, k, albums[b].songs@[q] as int));
            lemma_new_song_unseen(data, groups, order, k, m);
        } else {
            let m = groups[g]@[q - old_len] as int;
            assert(in_group(groups, g, m));
            assert(na[a].songs@[p] == albums[a].songs@[p]);
            assert(from_processed(groups, order, k, albums[a].songs@[p] as int));
            lemma_new_song_unseen(data, groups, order, k, m);
        }
    }
    assert forall|q: int, p: int| 0 <= q < k + 1 && 0 <= p < groups[order[q] as int]@.len() implies #[trigger] in_albums(na, groups[order[q] as int]@[p] as int) by {
        let m = groups[order[q] as int]@[p] as int;
        if q < k {
            assert(in_albums(albums, m));
            let (a, r) = choose|a: int, r: int| 0 <= a < albums.len() && 0 <= r < albums[a].songs@.len() && #[trigger] albums[a].songs@[r] == m;
            assert(na[a].songs@[r] == m);
        } else {
            assert(na[a0].songs@[old_len + p] == m);
        }
    }
    assert forall|a: int| 0 <= a < na.len() implies (#[trigger] na[a]).songs@.len() > 0 by {}
    assert forall|a: int| 0 <= a < na.len() implies (#[trigger] na[a]).original_name@ == or_empty(original_view(data[na[a].songs@[0] as int])) by {}
    assert forall|a: int| 0 <= a < na.len() implies 0 <= #[trigger] creators[a] < k + 1 && na[a].songs@[0] == groups[order[creators[a]] as int]@[0] by {}
    assert forall|a: int, b: int| 0 <= a < b < na.len() implies (#[trigger] na[a]).name@ != (#[trigger] na[b]).name@ by {
        assert(albums[a].name@ != albums[b].name@);
    }
}

/// Groups an artist's songs into albums: songs of the same album, date
/// and album tag form a group; groups are sorted by album and date, or by
/// date; each group becomes an album named `(date) album`, or, when dates
/// are not shown, groups of the same album name make one album.
pub fn process_songs(data: &Vec<AlbumKey>, display: AlbumDisplayMode, sort: AlbumSortMode) -> (r: Vec<CachedAlbum>)
    ensures
        albums_of(data@, r@, display, sort),
{
    let groups = group_songs(data);
    let ng = groups.len();
    let mut keys: Vec<(String, String)> = Vec::new();
    for g in 0..ng
        invariant
            ng == groups@.len(),
            grouped(data@, groups@, data@.len() as int),
            keys@.len() == g,
            forall|h: int| 0 <= h < g ==> #[trigger] pair_views(keys@)[h] == sort_key(data@[groups@[h]@[0] as int], sort),
    {
        assert(groups@[g as int]@.len() > 0);
        assert(groups@[g as int]@[0] < data@.len());
        let first = groups[g][0];
        let ghost kb = keys@;
        keys.push(sort_key_exec(&data[first], sort));
        proof {
            assert forall|h: int| 0 <= h < g + 1 implies #[trigger] pair_views(keys@)[h] == sort_key(data@[groups@[h]@[0] as int], sort) by {
                assert(pair_views(keys@)[h] == (keys@[h].0@, keys@[h].1@));
                if h < g {
                    assert(keys@[h] == kb[h]);
                    assert(pair_views(kb)[h] == (kb[h].0@, kb[h].1@));
                }
            }
        }
    }
    let order = sorted_positions(&keys);
    proof {
        assert(distinct_groups(order@, groups@.len() as int));
    }
    let mut albums: Vec<CachedAlbum> = Vec::new();
    let ghost mut creators: Seq<int> = Seq::empty();
    for k in 0..order.len()
        invariant
            ng == groups@.len(),
            keys@.len() == ng,
            grouped(data@, groups@, data@.len() as int),
            sorts_positions(pair_views(keys@), order@),
            distinct_groups(order@, groups@.len() as int),
            merge_inv(data@, groups@, order@, albums@, creators, k as int, display),
            forall|h: int| 0 <= h < ng ==> #[trigger] pair_views(keys@)[h] == sort_key(data@[groups@[h]@[0] as int], sort),
            sorted_within(data@, albums@, sort),
    {
        let g = order[k];
        assert(groups@[g as int]@.len() > 0);
        assert(groups@[g as int]@[0] < data@.len());
        let first = groups[g][0];
        let name = shown_name_exec(&data[first], display);
        let target = match display {
            AlbumDisplayMode::NameOnly => find_album(&albums, name.as_str()),
            AlbumDisplayMode::SplitByDate => None,
        };
        match target {
            None => {
                let original = match &data[first].original {
                    Some(o) => o.clone(),
                    None => String::new(),
                };
                let album = CachedAlbum { name, original_name: original, songs: copy_indices(&groups[g]) };
                proof {
                    lemma_merge_push(data@, groups@, order@, albums@, creators, k as int, display, album);
                }
                let ghost pre = albums@;
                albums.push(album);
                proof {
                    let al = albums@;
                    let n = pre.len() as int;
                    assert forall|a: int, p: int, q: int|
                        0 <= a < al.len() && 0 <= p < q < al[a].songs@.len() implies !pair_lt(
                        sort_key(data@[#[trigger] al[a].songs@[q] as int], sort),
                        sort_key(data@[#[trigger] al[a].songs@[p] as int], sort),
                    ) by {
                        if a < n {
                            assert(al[a] == pre[a]);
                        } else {
                            let gi = g as int;
                            assert(in_group(groups@, gi, al[a].songs@[p] as int));
                            assert(in_group(groups@, gi, al[a].songs@[q] as int));
                            lemma_group_sort_key(data@, groups@, gi, al[a].songs@[p] as int, sort);
                            lemma_group_sort_key(data@, groups@, gi, al[a].songs@[q] as int, sort);
                            let x = sort_key(data@[al[a].songs@[p] as int], sort);
                            lemma_text_lt_irreflexive(x.0);
                            lemma_text_lt_irreflexive(x.1);
                        }
                    }
                }
                proof {
                    creators = creators.push(k as int);
                }
            },
            Some(a) => {
                let ghost pre = albums@;
                let mut album = albums.remove(a);
                assert(album == pre[a as int]);
                append_indices(&mut album.songs, &groups[g]);
                proof {
                    lemma_merge_extend(data@, groups@, order@, pre, creators, k as int, display, a as int, album);
                }
                albums.insert(a, album);
                assert(albums@ =~= pre.update(a as int, album));
                proof {
                    let al = albums@;
                    let a0 = a as int;
                    let old_len = pre[a0].songs@.len() as int;
                    let gi = g as int;
                    let kv = pair_views(keys@);
                    assert forall|b: int, p: int, q: int|
                        0 <= b < al.len() && 0 <= p < q < al[b].songs@.len() implies !pair_lt(
                        sort_key(data@[#[trigger] al[b].songs@[q] as int], sort),
                        sort_key(data@[#[trigger] al[b].songs@[p] as int], sort),
                    ) by {
                        if b != a0 {
                            assert(al[b] == pre[b]);
                        } else if q < old_len {
                            assert(al[b].songs@[p] == pre[a0].songs@[p]);
                            assert(al[b].songs@[q] == pre[a0].songs@[q]);
                        } else {
                            let mq = al[b].songs@[q] as int;
                            assert(mq == groups@[gi]@[q - old_len]);
                            assert(in_group(groups@, gi, mq));
                            lemma_group_sort_key(data@, groups@, gi, mq, sort);
                            let mp = al[b].songs@[p] as int;
                            if p < old_len {
                                assert(mp == pre[a0].songs@[p]);
                                assert(from_processed(groups@, order@, k as int, mp));
                                lemma_earlier_song_key(data@, groups@, order@, kv, k as int, mp, sort);
                            } else {
                                assert(mp == groups@[gi]@[p - old_len]);
                                assert(in_group(groups@, gi, mp));
                                lemma_group_sort_key(data@, groups@, gi, mp, sort);
                                let x = sort_key(data@[mp], sort);
                                lemma_text_lt_irreflexive(x.0);
                                lemma_text_lt_irreflexive(x.1);
                            }
                        }
                    }
                }
            },
        }
    }
    proof {
        let al = albums@;
        let kv = pair_views(keys@);
        let o = order@;
        assert forall|m: int| 0 <= m < data@.len() implies #[trigger] in_albums(al, m) by {
            assert(in_some_group(groups@, m));
            let (g, p) = choose|g: int, p: int| 0 <= g < groups@.len() && 0 <= p < groups@[g]@.len() && #[trigger] groups@[g]@[p] == m;
            assert(lists(o, g));
            let q = choose|q: int| 0 <= q < o.len() && #[trigger] o[q] == g;
            assert(in_albums(al, groups@[o[q] as int]@[p] as int));
        }
        assert forall|a: int, b: int| 0 <= a < b < al.len() implies !pair_lt(
            sort_key(data@[(#[trigger] al[b]).songs@[0] as int], sort),
            sort_key(data@[(#[trigger] al[a]).songs@[0] as int], sort),
        ) by {
            let ca = creators[a];
            let cb = creators[b];
            assert(ca < cb);
            assert(!pair_lt(kv[o[cb] as int], kv[o[ca] as int]));
            assert(kv[o[cb] as int] == sort_key(data@[groups@[o[cb] as int]@[0] as int], sort));
            assert(kv[o[ca] as int] == sort_key(data@[groups@[o[ca] as int]@[0] as int], sort));
        }
        assert forall|a: int, p: int| 0 <= a < al.len() && 0 <= p < al[a].songs@.len() implies #[trigger] al[a].songs@[p] < data@.len()
            && shown_name(data@[al[a].songs@[p] as int], display) == al[a].name@ by {}
        if display == AlbumDisplayMode::SplitByDate {
            assert forall|a: int, b: int| 0 <= a < b < al.len() implies group_key(data@[(#[trigger] al[a]).songs@[0] as int])
                != group_key(data@[(#[trigger] al[b]).songs@[0] as int]) by {
                let ga = o[creators[a]] as int;
                let gb = o[creators[b]] as int;
                assert(creators[a] < creators[b]);
                assert(ga != gb);
                if ga < gb {
                    assert(group_key(data@[groups@[ga]@[0] as int]) != group_key(data@[groups@[gb]@[0] as int]));
                } else {
                    assert(group_key(data@[groups@[gb]@[0] as int]) != group_key(data@[groups@[ga]@[0] as int]));
                }
            }
        }
    }
    albums
}

} // verus!
