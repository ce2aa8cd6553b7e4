//! Songs as the player daemon reports them, and how one of their properties
//! is turned into text.
use vstd::prelude::*;

use crate::text::{
    chars_to_string, decimal, decimal_chars, join_strings, joined, keep_first, pad_zeros,
    pad_zeros_exec, parse_unsigned, parse_unsigned_exec, str_equals, to_chars, views,
};

verus! {

/// The value of one metadata tag: a single value or several.
pub enum MetadataTag {
    Single(String),
    Multiple(Vec<String>),
}

impl MetadataTag {
    /// The values of the tag, in order.
    pub open spec fn values(&self) -> Seq<Seq<char>> {
        match self {
            MetadataTag::Single(v) => seq![v@],
            MetadataTag::Multiple(v) => views(v@),
        }
    }
}

/// The first value (empty when there is none).
pub open spec fn first_value(vs: Seq<Seq<char>>) -> Seq<char> {
    if vs.len() > 0 {
        vs[0]
    } else {
        Seq::empty()
    }
}

/// The last value (empty when there is none).
pub open spec fn last_value(vs: Seq<Seq<char>>) -> Seq<char> {
    if vs.len() > 0 {
        vs.last()
    } else {
        Seq::empty()
    }
}

/// The value at `idx`, or the last one when there are fewer values.
pub open spec fn nth_value(vs: Seq<Seq<char>>, idx: nat) -> Seq<char> {
    if idx < vs.len() {
        vs[idx as int]
    } else {
        last_value(vs)
    }
}

impl MetadataTag {
    /// The last value of the tag.
    pub fn last(&self) -> (r: String)
        ensures
            r@ == last_value(self.values()),
    {
        match self {
            MetadataTag::Single(v) => v.clone(),
            MetadataTag::Multiple(v) => {
                if v.len() == 0 {
                    String::new()
                } else {
                    v[v.len() - 1].clone()
                }
            },
        }
    }

    /// The first value of the tag.
    pub fn first(&self) -> (r: String)
        ensures
            r@ == first_value(self.values()),
    {
        match self {
            MetadataTag::Single(v) => v.clone(),
            MetadataTag::Multiple(v) => {
                if v.len() == 0 {
                    String::new()
                } else {
                    v[0].clone()
                }
            },
        }
    }

    /// The value at `idx`, or the last value when there are fewer.
    pub fn nth(&self, idx: usize) -> (r: String)
        ensures
            r@ == nth_value(self.values(), idx as nat),
    {
        match self {
            MetadataTag::Single(v) => {
                if idx == 0 {
                    v.clone()
                } else {
                    v.clone()
                }
            },
            MetadataTag::Multiple(v) => {
                if idx < v.len() {
                    v[idx].clone()
                } else {
                    self.last()
                }
            },
        }
    }

    /// All values joined by `separator`.
    pub fn join(&self, separator: &str) -> (r: String)
        ensures
            r@ == joined(self.values(), separator@),
    {
        match self {
            MetadataTag::Single(v) => {
                assert(joined(self.values(), separator@) == v@);
                v.clone()
            },
            MetadataTag::Multiple(v) => join_strings(v, separator),
        }
    }
}

/// How a tag with several values is shown.
#[derive(Clone, Copy)]
pub enum TagResolutionStrategy {
    First,
    Last,
    All,
    Nth(usize),
}

/// The text a strategy picks from the values of a tag.
pub open spec fn resolved(
    strategy: TagResolutionStrategy,
    vs: Seq<Seq<char>>,
    separator: Seq<char>,
) -> Seq<char> {
    match strategy {
        TagResolutionStrategy::First => first_value(vs),
        TagResolutionStrategy::Last => last_value(vs),
        TagResolutionStrategy::All => joined(vs, separator),
        TagResolutionStrategy::Nth(idx) => nth_value(vs, idx as nat),
    }
}

impl TagResolutionStrategy {
    /// The text this strategy picks from `tag`.
    pub fn resolve(self, tag: &MetadataTag, separator: &str) -> (r: String)
        ensures
            r@ == resolved(self, tag.values(), separator@),
    {
        match self {
            TagResolutionStrategy::First => tag.first(),
            TagResolutionStrategy::Last => tag.last(),
            TagResolutionStrategy::All => tag.join(separator),
            TagResolutionStrategy::Nth(idx) => tag.nth(idx),
        }
    }
}

/// A song of the library or the queue.
pub struct Song {
    pub id: u32,
    /// The song's path, relative to the music directory.
    pub file: String,
    /// The length of the song in whole seconds.
    pub duration: Option<u64>,
    /// The metadata tags, by name; a lookup takes the first entry of a name.
    pub metadata: Vec<(String, MetadataTag)>,
}

/// The values of the first tag named `key`.
pub open spec fn tag_lookup(metadata: Seq<(String, MetadataTag)>, key: Seq<char>) -> Option<
    Seq<Seq<char>>,
>
    decreases metadata.len(),
{
    if metadata.len() == 0 {
        None
    } else if metadata[0].0@ == key {
        Some(metadata[0].1.values())
    } else {
        tag_lookup(metadata.drop_first(), key)
    }
}

/// The position of the first tag named `key`.
pub open spec fn tag_index(metadata: Seq<(String, MetadataTag)>, key: Seq<char>) -> Option<int>
    decreases metadata.len(),
{
    if metadata.len() == 0 {
        None
    } else if metadata[0].0@ == key {
        Some(0)
    } else {
        match tag_index(metadata.drop_first(), key) {
            Some(i) => Some(i + 1),
            None => None,
        }
    }
}

proof fn lemma_tag_index(metadata: Seq<(String, MetadataTag)>, key: Seq<char>)
    ensures
        match tag_index(metadata, key) {
            Some(i) => 0 <= i < metadata.len() && metadata[i].0@ == key && (forall|j: int|
                0 <= j < i ==> metadata[j].0@ != key) && tag_lookup(metadata, key) == Some(
                metadata[i].1.values(),
            ),
            None => tag_lookup(metadata, key) is None && forall|j: int|
                0 <= j < metadata.len() ==> metadata[j].0@ != key,
        },
    decreases metadata.len(),
{
    if metadata.len() > 0 {
        lemma_tag_index(metadata.drop_first(), key);
        if metadata[0].0@ != key {
            match tag_index(metadata.drop_first(), key) {
                Some(i) => {
                    assert forall|j: int| 0 <= j < i + 1 implies metadata[j].0@ != key by {
                        if j > 0 {
                            assert(metadata[j] == metadata.drop_first()[j - 1]);
                        }
                    }
                },
                None => {
                    assert forall|j: int| 0 <= j < metadata.len() implies metadata[j].0@
                        != key by {
                        if j > 0 {
                            assert(metadata[j] == metadata.drop_first()[j - 1]);
                        }
                    }
                },
            }
        }
    }
}

/// The position of the first tag named `key`, if any.
pub fn find_tag(metadata: &Vec<(String, MetadataTag)>, key: &str) -> (r: Option<usize>)
    ensures
        match r {
            Some(i) => tag_index(metadata@, key@) == Some(i as int) && i < metadata@.len(),
            None => tag_index(metadata@, key@) is None,
        },
        match r {
            Some(i) => tag_lookup(metadata@, key@) == Some(metadata@[i as int].1.values()),
            None => tag_lookup(metadata@, key@) is None,
        },
{
    proof {
        lemma_tag_index(metadata@, key@);
    }
    let n = metadata.len();
    for i in 0..n
        invariant
            n == metadata@.len(),
            forall|j: int| 0 <= j < i ==> metadata@[j].0@ != key@,
            match tag_index(metadata@, key@) {
                Some(k) => 0 <= k < metadata@.len() && metadata@[k].0@ == key@ && (forall|j: int|
                    0 <= j < k ==> metadata@[j].0@ != key@) && tag_lookup(metadata@, key@) == Some(
                    metadata@[k].1.values(),
                ),
                None => tag_lookup(metadata@, key@) is None && forall|j: int|
                    0 <= j < metadata@.len() ==> metadata@[j].0@ != key@,
            },
    {
        if str_equals(metadata[i].0.as_str(), key) {
            return Some(i);
        }
    }
    None
}

/// A property of a song that can be shown.
pub enum SongProperty {
    Filename,
    FileExtension,
    File,
    Title,
    Artist,
    Album,
    Duration,
    Track,
    Disc,
    Position,
    Other(String),
}

/// The final component of a path without its extension, as
/// `std::path::Path::file_stem` computes it.
pub uninterp spec fn path_file_stem(path: Seq<char>) -> Option<Seq<char>>;

/// The extension of the final component of a path, as
/// `std::path::Path::extension` computes it.
pub uninterp spec fn path_extension(path: Seq<char>) -> Option<Seq<char>>;

/// Trusted: `Path::file_stem` of the path `file`, turned back into a
/// string. The path was built from a `str`, so the conversion loses
/// nothing; the stem depends on the path's characters alone.
#[verifier::external_body]
fn file_stem_of(file: &str) -> (r: Option<String>)
    ensures
        match r {
            Some(s) => path_file_stem(file@) == Some(s@),
            None => path_file_stem(file@) is None,
        },
{
    std::path::Path::new(file).file_stem().map(|stem| stem.to_string_lossy().into_owned())
}

/// Trusted: `Path::extension` of the path `file`, turned back into a
/// string; as for the stem, nothing is lost and the result depends on the
/// path's characters alone.
#[verifier::external_body]
fn extension_of(file: &str) -> (r: Option<String>)
    ensures
        match r {
            Some(s) => path_extension(file@) == Some(s@),
            None => path_extension(file@) is None,
        },
{
    std::path::Path::new(file).extension().map(|ext| ext.to_string_lossy().into_owned())
}

/// A duration in seconds as minutes and two-digit seconds, `m:ss`.
pub open spec fn duration_text(secs: nat) -> Seq<char> {
    decimal(secs / 60) + seq![':'] + pad_zeros(decimal(secs % 60), 2)
}

/// Formats a duration in seconds as `m:ss`.
pub fn format_duration(secs: u64) -> (r: String)
    ensures
        r@ == duration_text(secs as nat),
{
    let mut r = decimal_chars(secs / 60);
    r.push(':');
    let s = decimal_chars(secs % 60);
    let padded = pad_zeros_exec(&s, 2);
    let ghost head = r@;
    let n = padded.len();
    for i in 0..n
        invariant
            n == padded@.len(),
            r@ == head + padded@.subrange(0, i as int),
    {
        r.push(padded[i]);
        assert(r@ =~= head + padded@.subrange(0, i + 1));
    }
    assert(padded@.subrange(0, n as int) =~= padded@);
    assert(head =~= decimal((secs / 60) as nat) + seq![':']);
    chars_to_string(r.as_slice())
}

/// The text shown for the song's queue position: the `pos` tag, counted
/// from one; empty when the tag is not a number.
pub open spec fn position_text(last: Seq<char>) -> Seq<char> {
    match parse_unsigned(last, usize::MAX as nat) {
        Some(v) => decimal(v + 1),
        None => Seq::empty(),
    }
}

/// The text shown for the track number: padded to two digits when the tag
/// is a number, the tag itself otherwise.
pub open spec fn track_text(last: Seq<char>) -> Seq<char> {
    match parse_unsigned(last, u32::MAX as nat) {
        Some(v) => pad_zeros(decimal(v), 2),
        None => last,
    }
}

/// The text of a song property; `None` when the song does not have it.
pub open spec fn format_spec(
    song: &Song,
    property: &SongProperty,
    separator: Seq<char>,
    strategy: TagResolutionStrategy,
) -> Option<Seq<char>> {
    let tag_text = |key: Seq<char>|
        match tag_lookup(song.metadata@, key) {
            Some(vs) => Some(resolved(strategy, vs, separator)),
            None => None,
        };
    match property {
        SongProperty::Filename => path_file_stem(song.file@),
        SongProperty::FileExtension => path_extension(song.file@),
        SongProperty::File => Some(song.file@),
        SongProperty::Title => tag_text("title"@),
        SongProperty::Artist => tag_text("artist"@),
        SongProperty::Album => tag_text("album"@),
        SongProperty::Duration => match song.duration {
            Some(d) => Some(duration_text(d as nat)),
            None => None,
        },
        SongProperty::Other(name) => tag_text(name@),
        SongProperty::Disc => match tag_lookup(song.metadata@, "disc"@) {
            Some(vs) => Some(last_value(vs)),
            None => None,
        },
        SongProperty::Position => match tag_lookup(song.metadata@, "pos"@) {
            Some(vs) => Some(position_text(last_value(vs))),
            None => None,
        },
        SongProperty::Track => match tag_lookup(song.metadata@, "track"@) {
            Some(vs) => Some(track_text(last_value(vs))),
            None => None,
        },
    }
}

/// The song's queue position is the largest `usize`, so counting it from
/// one overflows.
pub open spec fn position_overflows(song: &Song) -> bool {
    match tag_lookup(song.metadata@, "pos"@) {
        Some(vs) => parse_unsigned(last_value(vs), usize::MAX as nat) == Some(usize::MAX as nat),
        None => false,
    }
}

impl Song {
    /// The title tag with its values joined by `separator`, or `Untitled`.
    pub fn title_str(&self, separator: &str) -> (r: String)
        ensures
            r@ == match tag_lookup(self.metadata@, "title"@) {
                Some(vs) => joined(vs, separator@),
                None => "Untitled"@,
            },
    {
        match find_tag(&self.metadata, "title") {
            Some(i) => self.metadata[i].1.join(separator),
            None => String::from_str("Untitled"),
        }
    }

    /// The artist tag with its values joined by `separator`, or `Unknown`.
    pub fn artist_str(&self, separator: &str) -> (r: String)
        ensures
            r@ == match tag_lookup(self.metadata@, "artist"@) {
                Some(vs) => joined(vs, separator@),
                None => "Unknown"@,
            },
    {
        match find_tag(&self.metadata, "artist") {
            Some(i) => self.metadata[i].1.join(separator),
            None => String::from_str("Unknown"),
        }
    }

    /// The file name of the song without its extension.
    pub fn file_name(&self) -> (r: Option<String>)
        ensures
            match r {
                Some(s) => path_file_stem(self.file@) == Some(s@),
                None => path_file_stem(self.file@) is None,
            },
    {
        file_stem_of(self.file.as_str())
    }

    /// The extension of the song's file.
    pub fn file_ext(&self) -> (r: Option<String>)
        ensures
            match r {
                Some(s) => path_extension(self.file@) == Some(s@),
                None => path_extension(self.file@) is None,
            },
    {
        extension_of(self.file.as_str())
    }

    fn tag_text(&self, key: &str, separator: &str, strategy: TagResolutionStrategy) -> (r:
        Option<String>)
        ensures
            match r {
                Some(s) => tag_lookup(self.metadata@, key@) is Some && s@ == resolved(
                    strategy,
                    tag_lookup(self.metadata@, key@)->0,
                    separator@,
                ),
                None => tag_lookup(self.metadata@, key@) is None,
            },
    {
        match find_tag(&self.metadata, key) {
            Some(i) => Some(strategy.resolve(&self.metadata[i].1, separator)),
            None => None,
        }
    }

    /// The text of `property` for this song, `None` when the song lacks it.
    pub fn format(&self, property: &SongProperty, separator: &str, strategy: TagResolutionStrategy)
        -> (r: Option<String>)
        requires
            !(property is Position && position_overflows(self)),
        ensures
            match r {
                Some(s) => format_spec(self, property, separator@, strategy) == Some(s@),
                None => format_spec(self, property, separator@, strategy) is None,
            },
    {
        match property {
            SongProperty::Filename => self.file_name(),
            SongProperty::FileExtension => self.file_ext(),
            SongProperty::File => Some(self.file.clone()),
            SongProperty::Title => self.tag_text("title", separator, strategy),
            SongProperty::Artist => self.tag_text("artist", separator, strategy),
            SongProperty::Album => self.tag_text("album", separator, strategy),
            SongProperty::Duration => match self.duration {
                Some(d) => Some(format_duration(d)),
                None => None,
            },
            SongProperty::Other(name) => self.tag_text(name.as_str(), separator, strategy),
            SongProperty::Disc => match find_tag(&self.metadata, "disc") {
                Some(i) => Some(self.metadata[i].1.last()),
                None => None,
            },
            SongProperty::Position => match find_tag(&self.metadata, "pos") {
                Some(i) => {
                    let last = self.metadata[i].1.last();
                    let chars = to_chars(last.as_str());
                    match parse_unsigned_exec(&chars, usize::MAX as u64) {
                        Some(v) => {
                            let text = decimal_chars(v + 1);
                            Some(chars_to_string(text.as_slice()))
                        },
                        None => Some(String::new()),
                    }
                },
                None => None,
            },
            SongProperty::Track => match find_tag(&self.metadata, "track") {
                Some(i) => {
                    let last = self.metadata[i].1.last();
                    let chars = to_chars(last.as_str());
                    match parse_unsigned_exec(&chars, u32::MAX as u64) {
                        Some(v) => {
                            let text = pad_zeros_exec(&decimal_chars(v), 2);
                            Some(chars_to_string(text.as_slice()))
                        },
                        None => Some(last),
                    }
                },
                None => None,
            },
        }
    }
}

} // verus!
