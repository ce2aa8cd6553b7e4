//! The rows a browsing column shows: a mark for the marked entries, a
//! symbol telling directories from songs, and the entry's name.
use vstd::prelude::*;

use super::{DirOrSong, SongExt};
use crate::text::{chars_to_string, contains_ignore_case, contains_ignoring_case, contains_seq, decimal, decimal_chars, str_contains, to_chars};

verus! {

/// The symbols drawn in front of entries.
pub struct SymbolsConfig {
    pub song: String,
    pub dir: String,
    pub marker: String,
}

/// One row of a browsing column.
pub struct ListLine {
    /// The marker, or as many spaces as it has characters.
    pub marker: String,
    /// Whether the entry is marked (the marker is then highlighted).
    pub marked: bool,
    /// The symbol, a space and the entry's name.
    pub text: String,
}

/// `n` spaces.
pub open spec fn spaces(n: nat) -> Seq<char> {
    Seq::new(n, |i: int| ' ')
}

/// A string of `n` spaces.
pub fn space_string(n: usize) -> (r: String)
    ensures
        r@ == spaces(n as nat),
{
    let mut r = String::new();
    for i in 0..n
        invariant
            r@ == spaces(i as nat),
    {
        r.append(" ");
        proof {
            reveal_strlit(" ");
        }
        assert(r@ =~= spaces((i + 1) as nat));
    }
    r
}

/// Whether `v` holds `x`.
pub fn contains_index(v: &Vec<usize>, x: usize) -> (r: bool)
    ensures
        r == v@.contains(x),
{
    for i in 0..v.len()
        invariant
            forall|j: int| 0 <= j < i ==> v@[j] != x,
    {
        if v[i] == x {
            return true;
        }
    }
    false
}

/// The marker column of the row at `idx`.
pub open spec fn marker_text(symbols: SymbolsConfig, marked: Seq<usize>, idx: int) -> Seq<char> {
    if marked.contains(idx as usize) {
        symbols.marker@
    } else {
        spaces(symbols.marker@.len())
    }
}

/// The text of a directory or song row.
pub open spec fn entry_text(symbols: SymbolsConfig, e: DirOrSong) -> Seq<char> {
    match e {
        DirOrSong::Dir(v) => symbols.dir@ + " "@ + (if v@.len() == 0 {
            "Untitled"@
        } else {
            v@
        }),
        DirOrSong::Song(s) => symbols.song@ + " "@ + s@,
    }
}

fn marker_for(symbols: &SymbolsConfig, marked: &Vec<usize>, idx: usize) -> (r: (String, bool))
    ensures
        r.0@ == marker_text(*symbols, marked@, idx as int),
        r.1 == marked@.contains(idx),
{
    if contains_index(marked, idx) {
        (symbols.marker.clone(), true)
    } else {
        let n = to_chars(symbols.marker.as_str()).len();
        (space_string(n), false)
    }
}

/// The rows of a column of entries, produced one at a time.
pub struct BrowserItem {
    pub items: Vec<DirOrSong>,
    /// How many rows were asked for so far.
    pub count: usize,
    pub symbols: SymbolsConfig,
    /// The indices of the marked entries.
    pub marked: Vec<usize>,
}

impl BrowserItem {
    /// The next row, or `None` past the last entry; every call advances.
    pub fn next(&mut self) -> (r: Option<ListLine>)
        requires
            old(self).count < usize::MAX,
        ensures
            final(self).count == old(self).count + 1,
            final(self).items@ == old(self).items@,
            final(self).marked@ == old(self).marked@,
            final(self).symbols == old(self).symbols,
            match r {
                None => old(self).count >= old(self).items@.len(),
                Some(line) => old(self).count < old(self).items@.len() && line.marker@
                    == marker_text(old(self).symbols, old(self).marked@, old(self).count as int)
                    && line.marked == old(self).marked@.contains(old(self).count) && line.text@
                    == entry_text(old(self).symbols, old(self).items@[old(self).count as int]),
            },
    {
        let idx = self.count;
        self.count = self.count + 1;
        if idx >= self.items.len() {
            return None;
        }
        let (marker, marked) = marker_for(&self.symbols, &self.marked, idx);
        let mut text = String::new();
        match &self.items[idx] {
            DirOrSong::Dir(v) => {
                text.append(self.symbols.dir.as_str());
                text.append(" ");
                if to_chars(v.as_str()).len() == 0 {
                    text.append("Untitled");
                } else {
                    text.append(v.as_str());
                }
            },
            DirOrSong::Song(s) => {
                text.append(self.symbols.song.as_str());
                text.append(" ");
                text.append(s.as_str());
            },
        }
        Some(ListLine { marker, marked, text })
    }
}

/// Turns a column of entries into its rows.
pub trait DirOrSongListItems {
    fn listitems(self, symbols: SymbolsConfig, marked: Vec<usize>) -> BrowserItem;
}

impl DirOrSongListItems for Vec<DirOrSong> {
    /// The rows start with the first entry.
    fn listitems(self, symbols: SymbolsConfig, marked: Vec<usize>) -> (r: BrowserItem)
        ensures
            r.items@ == self@,
            r.count == 0,
            r.symbols == symbols,
            r.marked@ == marked@,
    {
        BrowserItem { items: self, count: 0, symbols, marked }
    }
}

/// A song as the browsing screens know it: its file and its main tags.
pub struct SongInfo {
    pub file: String,
    pub title: Option<String>,
    pub artist: Option<String>,
    pub album: Option<String>,
    /// The length in whole seconds.
    pub duration: Option<u64>,
    /// The other tags, by name.
    pub others: Vec<(String, String)>,
}

/// An entry of a browsing column that carries the whole song.
pub enum DirOrSongInfo {
    Dir(String),
    Song(SongInfo),
}

/// A tag's value, or `fallback` when the tag is missing.
pub open spec fn or_else(v: Option<String>, fallback: Seq<char>) -> Seq<char> {
    match v {
        Some(s) => s@,
        None => fallback,
    }
}

/// The title of a song as a browsing column shows it.
pub open spec fn shown_title(s: SongInfo) -> Seq<char> {
    or_else(s.title, "Untitled"@)
}

/// The artist of a song as a browsing column shows it.
pub open spec fn shown_artist(s: SongInfo) -> Seq<char> {
    or_else(s.artist, "Untitled"@)
}

fn value_or(v: &Option<String>, fallback: &str) -> (r: String)
    ensures
        r@ == match v {
            Some(s) => s@,
            None => fallback@,
        },
{
    match v {
        Some(s) => s.clone(),
        None => fallback.to_string(),
    }
}

impl SongExt for SongInfo {
    /// The title, or `Untitled`.
    fn title_str(&self) -> (r: String)
        ensures
            r@ == shown_title(*self),
    {
        value_or(&self.title, "Untitled")
    }

    /// The artist, or `Untitled`.
    fn artist_str(&self) -> (r: String)
        ensures
            r@ == shown_artist(*self),
    {
        value_or(&self.artist, "Untitled")
    }
}

/// The lines of a song's details, as key and value: title (or
/// `Untitled`), artist and album (or `Unknown`), length in seconds (or
/// `-`), then the other tags in order.
pub open spec fn info_lines(s: SongInfo) -> Seq<(Seq<char>, Seq<char>)> {
    seq![
        ("Title"@, or_else(s.title, "Untitled"@)),
        ("Artist"@, or_else(s.artist, "Unknown"@)),
        ("Album"@, or_else(s.album, "Unknown"@)),
        ("Duration"@, match s.duration {
            Some(d) => decimal(d as nat),
            None => "-"@,
        }),
    ] + s.others@.map_values(|kv: (String, String)| (kv.0@, kv.1@))
}

impl SongInfo {
    /// The lines of the song's details, as key and value.
    pub fn to_listitems(&self) -> (r: Vec<(String, String)>)
        ensures
            r@.map_values(|kv: (String, String)| (kv.0@, kv.1@)) == info_lines(*self),
    {
        let duration = match self.duration {
            Some(d) => {
                let c = decimal_chars(d);
                chars_to_string(c.as_slice())
            },
            None => String::from_str("-"),
        };
        let mut r: Vec<(String, String)> = vec![
            (String::from_str("Title"), value_or(&self.title, "Untitled")),
            (String::from_str("Artist"), value_or(&self.artist, "Unknown")),
            (String::from_str("Album"), value_or(&self.album, "Unknown")),
            (String::from_str("Duration"), duration),
        ];
        let ghost head = r@;
        for i in 0..self.others.len()
            invariant
                r@ == head + self.others@.take(i as int),
        {
            let kv = (self.others[i].0.clone(), self.others[i].1.clone());
            r.push(kv);
            assert(r@ =~= head + self.others@.take(i + 1));
        }
        assert(self.others@.take(self.others@.len() as int) =~= self.others@);
        assert(r@.map_values(|kv: (String, String)| (kv.0@, kv.1@)) =~= info_lines(*self));
        r
    }
}

impl DirOrSongInfo {
    /// The text a filter is matched against: the directory, or the song's
    /// title.
    pub open spec fn text(&self) -> Seq<char> {
        match self {
            DirOrSongInfo::Dir(d) => d@,
            DirOrSongInfo::Song(s) => shown_title(*s),
        }
    }

    /// Whether the entry's text contains `filter`, ignoring case when asked.
    pub fn matches(&self, filter: &str, ignorecase: bool) -> (r: bool)
        ensures
            r == if ignorecase {
                contains_ignoring_case(self.text(), filter@)
            } else {
                contains_seq(self.text(), filter@)
            },
    {
        let text = match self {
            DirOrSongInfo::Dir(d) => d.clone(),
            DirOrSongInfo::Song(s) => SongExt::title_str(s),
        };
        if ignorecase {
            contains_ignore_case(text.as_str(), filter)
        } else {
            str_contains(text.as_str(), filter)
        }
    }
}

/// The text of a row of entries that carry songs.
pub open spec fn info_entry_text(symbols: SymbolsConfig, e: DirOrSongInfo) -> Seq<char> {
    match e {
        DirOrSongInfo::Dir(v) => symbols.dir@ + " "@ + v@,
        DirOrSongInfo::Song(s) => symbols.song@ + " "@ + shown_title(s),
    }
}

/// The rows of a column of entries that carry songs, one at a time.
pub struct BrowserItemInfo {
    pub items: Vec<DirOrSongInfo>,
    pub count: usize,
    pub symbols: SymbolsConfig,
    pub marked: Vec<usize>,
}

impl BrowserItemInfo {
    /// The next row, or `None` past the last entry; every call advances.
    pub fn next(&mut self) -> (r: Option<ListLine>)
        requires
            old(self).count < usize::MAX,
        ensures
            final(self).count == old(self).count + 1,
            final(self).items@ == old(self).items@,
            final(self).marked@ == old(self).marked@,
            final(self).symbols == old(self).symbols,
            match r {
                None => old(self).count >= old(self).items@.len(),
                Some(line) => old(self).count < old(self).items@.len() && line.marker@
                    == marker_text(old(self).symbols, old(self).marked@, old(self).count as int)
                    && line.marked == old(self).marked@.contains(old(self).count) && line.text@
                    == info_entry_text(
                    old(self).symbols,
                    old(self).items@[old(self).count as int],
                ),
            },
    {
        let idx = self.count;
        self.count = self.count + 1;
        if idx >= self.items.len() {
            return None;
        }
        let (marker, marked) = marker_for(&self.symbols, &self.marked, idx);
        let mut text = String::new();
        match &self.items[idx] {
            DirOrSongInfo::Dir(v) => {
                text.append(self.symbols.dir.as_str());
                text.append(" ");
                text.append(v.as_str());
            },
            DirOrSongInfo::Song(s) => {
                text.append(self.symbols.song.as_str());
                text.append(" ");
                let t = SongExt::title_str(s);
                text.append(t.as_str());
            },
        }
        Some(ListLine { marker, marked, text })
    }
}

/// Turns a column of entries that carry songs into its rows.
pub trait DirOrSongInfoListItems {
    fn listitems(self, symbols: SymbolsConfig, marked: Vec<usize>) -> BrowserItemInfo;
}

impl DirOrSongInfoListItems for Vec<DirOrSongInfo> {
    /// The rows start with the first entry.
    fn listitems(self, symbols: SymbolsConfig, marked: Vec<usize>) -> (r: BrowserItemInfo)
        ensures
            r.items@ == self@,
            r.count == 0,
            r.symbols == symbols,
            r.marked@ == marked@,
    {
        BrowserItemInfo { items: self, count: 0, symbols, marked }
    }
}

} // verus!
