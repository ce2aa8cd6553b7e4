//! The tag browser: a list of the values of one root tag (artists, say),
//! each opening into the albums of its songs. Its albums are grouped by
//! album (all values joined) and date, with the machinery of
//! `album_groups`.
use vstd::prelude::*;

use crate::album_groups::{albums_of, process_songs, AlbumDisplayMode, AlbumKey, AlbumSortMode, CachedAlbum};
use crate::panes::{BrowserEntry, EntrySongs};
use crate::screens::{MpdRequest, RequestView, Tag};
use crate::search::FilterKind;
use crate::song::{find_tag, last_value, tag_lookup, MetadataTag, Song};
use crate::text::joined;

verus! {

/// A filter on the root tag.
pub struct RootFilter {
    pub tag: Tag,
    pub value: String,
    pub kind: FilterKind,
}

/// The regular expression that finds `value` as one item of a tag whose
/// items are separated by `sep`.
pub open spec fn item_pattern(sep: Seq<char>, value: Seq<char>) -> Seq<char> {
    "(^|.*"@ + sep + ")"@ + value + "($|"@ + sep + ".*)"@
}

/// The filter that finds the songs of one value of the root tag. Without a
/// separator, or for the empty value, the tag must equal the value; with a
/// separator (already escaped for a regular expression) the value may be any
/// one of the separated items of the tag.
pub fn root_tag_filter(root_tag: Tag, separator: Option<&str>, value: &str) -> (r: RootFilter)
    ensures
        r.tag == root_tag,
        match separator {
            Some(sep) if value@.len() > 0 => r.kind == FilterKind::Regex && r.value@ == item_pattern(sep@, value@),
            _ => r.kind == FilterKind::Exact && r.value@ == value@,
        },
{
    match separator {
        Some(sep) if !value.is_empty() => {
            let mut pattern = String::from_str("(^|.*");
            pattern.append(sep);
            pattern.append(")");
            pattern.append(value);
            pattern.append("($|");
            pattern.append(sep);
            pattern.append(".*)");
            RootFilter { tag: root_tag, value: pattern, kind: FilterKind::Regex }
        },
        _ => RootFilter { tag: root_tag, value: value.to_string(), kind: FilterKind::Exact },
    }
}

/// The album a song is listed under in the tag browser: all its album
/// values joined by `sep`, or `<no album>`.
pub open spec fn browser_album_of(s: Song, sep: Seq<char>) -> Seq<char> {
    match tag_lookup(s.metadata@, "album"@) {
        Some(vs) => joined(vs, sep),
        None => "<no album>"@,
    }
}

/// The last value of the first of `tags` that the song has.
pub open spec fn date_from_tags(metadata: Seq<(String, MetadataTag)>, tags: Seq<Seq<char>>) -> Option<Seq<char>>
    decreases tags.len(),
{
    if tags.len() == 0 {
        None
    } else {
        match tag_lookup(metadata, tags[0]) {
            Some(vs) => Some(last_value(vs)),
            None => date_from_tags(metadata, tags.drop_first()),
        }
    }
}

/// The date a song is listed under in the tag browser: the last value of
/// the first configured date tag it has, or `<no date>`.
pub open spec fn browser_date_of(s: Song, tags: Seq<Seq<char>>) -> Seq<char> {
    match date_from_tags(s.metadata@, tags) {
        Some(d) => d,
        None => "<no date>"@,
    }
}

/// The names of a list of tags, as plain text.
pub open spec fn names_view(tags: Seq<String>) -> Seq<Seq<char>> {
    tags.map_values(|t: String| t@)
}

/// The date of a song, from the first of `date_tags` it has.
pub fn song_date(song: &Song, date_tags: &Vec<String>) -> (r: Option<String>)
    ensures
        match date_from_tags(song.metadata@, names_view(date_tags@)) {
            Some(d) => r matches Some(v) && v@ == d,
            None => r is None,
        },
{
    let n = date_tags.len();
    let ghost names = names_view(date_tags@);
    assert(names.skip(0) =~= names);
    for i in 0..n
        invariant
            n == date_tags@.len(),
            names == names_view(date_tags@),
            date_from_tags(song.metadata@, names) == date_from_tags(song.metadata@, names.skip(i as int)),
    {
        assert(names.skip(i as int)[0] == date_tags@[i as int]@);
        assert(names.skip(i as int).drop_first() =~= names.skip(i + 1));
        match find_tag(&song.metadata, date_tags[i].as_str()) {
            Some(k) => {
                return Some(song.metadata[k].1.last());
            },
            None => {},
        }
    }
    assert(names.skip(n as int).len() == 0);
    None
}

/// The key of a song in the tag browser: its album values joined by
/// `separator` (or `<no album>`) and its date; the album tag plays no part.
pub fn tag_browser_key(song: &Song, separator: &str, date_tags: &Vec<String>) -> (r: AlbumKey)
    ensures
        r.album@ == browser_album_of(*song, separator@),
        r.date@ == browser_date_of(*song, names_view(date_tags@)),
        r.original is None,
{
    let album = match find_tag(&song.metadata, "album") {
        Some(i) => song.metadata[i].1.join(separator),
        None => String::from_str("<no album>"),
    };
    let date = match song_date(song, date_tags) {
        Some(d) => d,
        None => String::from_str("<no date>"),
    };
    AlbumKey { album, date, original: None }
}

/// Each key is the tag-browser key of the song at the same position.
pub open spec fn browser_keys_of_songs(keys: Seq<AlbumKey>, songs: Seq<Song>, sep: Seq<char>, tags: Seq<Seq<char>>) -> bool {
    &&& keys.len() == songs.len()
    &&& forall|i: int| 0 <= i < songs.len() ==> {
        &&& (#[trigger] keys[i]).album@ == browser_album_of(songs[i], sep)
        &&& keys[i].date@ == browser_date_of(songs[i], tags)
        &&& keys[i].original is None
    }
}

/// The albums of one value of the root tag: the songs grouped by joined
/// album and date, sorted by album and date or by date, named `(date)
/// album` or, when dates are not shown, merged by album name. The albums
/// hold positions in `data`.
pub fn tag_browser_albums(
    data: &Vec<Song>,
    separator: &str,
    date_tags: &Vec<String>,
    display: AlbumDisplayMode,
    sort: AlbumSortMode,
) -> (r: Vec<CachedAlbum>)
    ensures
        exists|keys: Seq<AlbumKey>| browser_keys_of_songs(keys, data@, separator@, names_view(date_tags@))
            && albums_of(keys, r@, display, sort),
{
    let mut keys: Vec<AlbumKey> = Vec::new();
    for i in 0..data.len()
        invariant
            browser_keys_of_songs(keys@, data@.take(i as int), separator@, names_view(date_tags@)),
    {
        let k = tag_browser_key(&data[i], separator, date_tags);
        keys.push(k);
        proof {
            assert forall|j: int| 0 <= j < i + 1 implies {
                &&& (#[trigger] keys@[j]).album@ == browser_album_of(data@.take(i + 1)[j], separator@)
                &&& keys@[j].date@ == browser_date_of(data@.take(i + 1)[j], names_view(date_tags@))
                &&& keys@[j].original is None
            } by {
                assert(data@.take(i + 1)[j] == data@[j]);
                if j < i {
                    assert(data@.take(i as int)[j] == data@[j]);
                }
            }
        }
    }
    assert(data@.take(data@.len() as int) =~= data@);
    let albums = process_songs(&keys, display, sort);
    assert(browser_keys_of_songs(keys@, data@, separator@, names_view(date_tags@)) && albums_of(keys@, albums@, display, sort));
    albums
}


/// The songs among some entries, in order.
pub open spec fn entry_songs(items: Seq<BrowserEntry>) -> Seq<Song>
    decreases items.len(),
{
    if items.len() == 0 {
        Seq::empty()
    } else {
        let rest = entry_songs(items.drop_last());
        match items.last() {
            BrowserEntry::Song(s) => rest.push(s),
            BrowserEntry::Dir { .. } => rest,
        }
    }
}

/// The songs among `items`, in order.
pub fn songs_among(items: Vec<BrowserEntry>) -> (r: Vec<Song>)
    ensures
        r@ == entry_songs(items@),
{
    let ghost all = items@;
    let mut items = items;
    let mut r: Vec<Song> = Vec::new();
    let ghost mut k: int = 0;
    while items.len() > 0
        invariant
            0 <= k <= all.len(),
            items@ == all.subrange(k, all.len() as int),
            r@ == entry_songs(all.subrange(0, k)),
        decreases items@.len(),
    {
        let e = items.remove(0);
        proof {
            assert(all.subrange(0, k + 1).drop_last() =~= all.subrange(0, k));
            assert(all.subrange(0, k + 1).last() == all[k]);
        }
        match e {
            BrowserEntry::Song(s) => r.push(s),
            BrowserEntry::Dir { .. } => {},
        }
        proof {
            k = k + 1;
            assert(items@ =~= all.subrange(k, all.len() as int));
        }
    }
    assert(all.subrange(0, k) =~= all);
    r
}

/// The songs of an entry of the tag browser: at the list of root values,
/// those the root filter of the value finds; inside a value, those of the
/// next column, `next_items`; a song is its own; deeper, none.
pub fn tag_browser_item_songs(
    root_tag: Tag,
    separator: Option<&str>,
    depth: usize,
    item: BrowserEntry,
    next_items: Vec<BrowserEntry>,
) -> (r: EntrySongs)
    ensures
        match item {
            BrowserEntry::Dir { name, .. } => if depth == 0 {
                r matches EntrySongs::Query(q) && match separator {
                    Some(sep) if name@.len() > 0 => q@ == RequestView::FindMatching(root_tag, item_pattern(sep@, name@), FilterKind::Regex),
                    _ => q@ == RequestView::FindMatching(root_tag, name@, FilterKind::Exact),
                }
            } else if depth == 1 {
                r matches EntrySongs::Songs(v) && v@ == entry_songs(next_items@)
            } else {
                r matches EntrySongs::Songs(v) && v@.len() == 0
            },
            BrowserEntry::Song(s) => r matches EntrySongs::Songs(v) && v@ == seq![s],
        },
{
    match item {
        BrowserEntry::Dir { name, .. } => {
            if depth == 0 {
                let f = root_tag_filter(root_tag, separator, name.as_str());
                EntrySongs::Query(MpdRequest::FindMatching { tag: f.tag, value: f.value, kind: f.kind })
            } else if depth == 1 {
                EntrySongs::Songs(songs_among(next_items))
            } else {
                EntrySongs::Songs(Vec::new())
            }
        },
        BrowserEntry::Song(s) => EntrySongs::Songs(vec![s]),
    }
}

} // verus!
