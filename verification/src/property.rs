//! Configurable song formats: plain text, stickers, song properties, groups
//! and transforms, each with an optional fallback, and how they resolve to
//! text for a song.
use vstd::prelude::*;

use crate::song::{format_spec, position_overflows, Song, SongProperty, TagResolutionStrategy};
use crate::text::{
    chars_to_string, contains_ignore_case, contains_ignoring_case, keep_first, keep_last,
    str_equals, to_chars, truncate_end, truncate_start,
};

verus! {

/// A format: what to show, and what to show instead when it cannot be
/// resolved.
pub struct Property {
    pub kind: PropertyKindOrText,
    pub default: Option<Box<Property>>,
}

/// The kinds of format.
pub enum PropertyKindOrText {
    /// Constant text.
    Text(String),
    /// The value of the sticker with this name.
    Sticker(String),
    /// A property of the song.
    Property(SongProperty),
    /// All members in turn; resolves only when every member does.
    Group(Vec<Property>),
    /// A transformation of another format.
    Transform(Transform),
}

/// Transformations of a format's text.
pub enum Transform {
    /// Replaces the text when it equals a key of `replacements`.
    Replace { content: Box<Property>, replacements: Vec<(String, Property)> },
    /// Keeps `length` characters, from the end when `from_start` is set
    /// (the start is cut), from the beginning otherwise.
    Truncate { content: Box<Property>, length: usize, from_start: bool },
}

/// The stickers of a song, by name.
pub type Stickers = Vec<(String, String)>;

/// The value of the first sticker named `key`.
pub open spec fn sticker_lookup(stickers: Seq<(String, String)>, key: Seq<char>) -> Option<
    Seq<char>,
>
    decreases stickers.len(),
{
    if stickers.len() == 0 {
        None
    } else if stickers[0].0@ == key {
        Some(stickers[0].1@)
    } else {
        sticker_lookup(stickers.drop_first(), key)
    }
}

/// The position of the first replacement keyed `key`.
pub open spec fn replacement_index(reps: Seq<(String, Property)>, key: Seq<char>) -> Option<int>
    decreases reps.len(),
{
    if reps.len() == 0 {
        None
    } else if reps[0].0@ == key {
        Some(0)
    } else {
        match replacement_index(reps.drop_first(), key) {
            Some(i) => Some(i + 1),
            None => None,
        }
    }
}

pub proof fn lemma_replacement_index(reps: Seq<(String, Property)>, key: Seq<char>)
    ensures
        match replacement_index(reps, key) {
            Some(i) => 0 <= i < reps.len() && reps[i].0@ == key && forall|j: int|
                0 <= j < i ==> reps[j].0@ != key,
            None => forall|j: int| 0 <= j < reps.len() ==> reps[j].0@ != key,
        },
    decreases reps.len(),
{
    if reps.len() > 0 {
        lemma_replacement_index(reps.drop_first(), key);
        if reps[0].0@ != key {
            match replacement_index(reps.drop_first(), key) {
                Some(i) => {
                    assert forall|j: int| 0 <= j < i + 1 implies reps[j].0@ != key by {
                        if j > 0 {
                            assert(reps[j] == reps.drop_first()[j - 1]);
                        }
                    }
                },
                None => {
                    assert forall|j: int| 0 <= j < reps.len() implies reps[j].0@ != key by {
                        if j > 0 {
                            assert(reps[j] == reps.drop_first()[j - 1]);
                        }
                    }
                },
            }
        }
    }
}

/// The stickers a format can read: those of the song, when there is one.
pub open spec fn song_stickers(song: Option<&Song>, stickers: Option<&Stickers>) -> Option<
    Seq<(String, String)>,
> {
    match (song, stickers) {
        (Some(_), Some(st)) => Some(st@),
        _ => None,
    }
}

/// The text of the fallback of `p`, if it has one that resolves.
pub open spec fn fallback_text(
    p: &Property,
    song: Option<&Song>,
    stickers: Option<&Stickers>,
    sep: Seq<char>,
    strategy: TagResolutionStrategy,
) -> Option<Seq<char>>
    decreases p, 0int,
{
    match &p.default {
        Some(d) => property_text(d, song, stickers, sep, strategy),
        None => None,
    }
}

/// The text a format resolves to for a song (or for no song); `None` when
/// neither the format nor its fallbacks resolve.
pub open spec fn property_text(
    p: &Property,
    song: Option<&Song>,
    stickers: Option<&Stickers>,
    sep: Seq<char>,
    strategy: TagResolutionStrategy,
) -> Option<Seq<char>>
    decreases p, 1int,
{
    match &p.kind {
        PropertyKindOrText::Text(v) => Some(v@),
        PropertyKindOrText::Sticker(key) => match song_stickers(song, stickers) {
            Some(st) => match sticker_lookup(st, key@) {
                Some(v) => Some(v),
                None => fallback_text(p, song, stickers, sep, strategy),
            },
            None => fallback_text(p, song, stickers, sep, strategy),
        },
        PropertyKindOrText::Property(prop) => match song {
            Some(s) => match format_spec(s, prop, sep, strategy) {
                Some(v) => Some(v),
                None => fallback_text(p, song, stickers, sep, strategy),
            },
            None => fallback_text(p, song, stickers, sep, strategy),
        },
        PropertyKindOrText::Group(items) => match group_text(items@, song, stickers, sep, strategy) {
            Some(v) => Some(v),
            None => fallback_text(p, song, stickers, sep, strategy),
        },
        PropertyKindOrText::Transform(Transform::Replace { content, replacements }) => {
            match property_text(content, song, stickers, sep, strategy) {
                Some(result) => match replacement_index(replacements@, result) {
                    Some(i) => {
                        proof {
                            lemma_replacement_index(replacements@, result);
                        }
                        match property_text(&replacements@[i].1, song, stickers, sep, strategy) {
                            Some(v) => Some(v),
                            None => match fallback_text(
                                &replacements@[i].1,
                                song,
                                stickers,
                                sep,
                                strategy,
                            ) {
                                Some(v) => Some(v),
                                None => fallback_text(p, song, stickers, sep, strategy),
                            },
                        }
                    },
                    None => Some(result),
                },
                None => fallback_text(p, song, stickers, sep, strategy),
            }
        },
        PropertyKindOrText::Transform(Transform::Truncate { content, length, from_start }) => {
            match property_text(content, song, stickers, sep, strategy) {
                Some(v) => Some(
                    if *from_start {
                        keep_last(v, *length as nat)
                    } else {
                        keep_first(v, *length as nat)
                    },
                ),
                None => fallback_text(p, song, stickers, sep, strategy),
            }
        },
    }
}

/// The members' texts concatenated; `None` as soon as one does not resolve.
pub open spec fn group_text(
    items: Seq<Property>,
    song: Option<&Song>,
    stickers: Option<&Stickers>,
    sep: Seq<char>,
    strategy: TagResolutionStrategy,
) -> Option<Seq<char>>
    decreases items, 1int,
{
    if items.len() == 0 {
        Some(Seq::empty())
    } else {
        match group_text(items.drop_last(), song, stickers, sep, strategy) {
            Some(init) => match property_text(&items.last(), song, stickers, sep, strategy) {
                Some(v) => Some(init + v),
                None => None,
            },
            None => None,
        }
    }
}

/// The view of an optional string.
pub open spec fn opt_view(r: Option<String>) -> Option<Seq<char>> {
    match r {
        Some(s) => Some(s@),
        None => None,
    }
}

/// The value of the first sticker named `key`.
pub fn find_sticker(stickers: &Stickers, key: &str) -> (r: Option<String>)
    ensures
        opt_view(r) == sticker_lookup(stickers@, key@),
{
    let n = stickers.len();
    let mut i: usize = 0;
    assert(stickers@.skip(0) =~= stickers@);
    while i < n
        invariant
            n == stickers@.len(),
            i <= n,
            sticker_lookup(stickers@, key@) == sticker_lookup(stickers@.skip(i as int), key@),
        decreases n - i,
    {
        let ghost rest = stickers@.skip(i as int);
        assert(rest.drop_first() =~= stickers@.skip(i + 1));
        assert(rest[0] == stickers@[i as int]);
        if str_equals(stickers[i].0.as_str(), key) {
            return Some(stickers[i].1.clone());
        }
        i = i + 1;
    }
    None
}

/// The position of the first replacement keyed `key`.
pub fn find_replacement(reps: &Vec<(String, Property)>, key: &str) -> (r: Option<usize>)
    ensures
        match r {
            Some(i) => replacement_index(reps@, key@) == Some(i as int),
            None => replacement_index(reps@, key@) is None,
        },
{
    let n = reps.len();
    let mut i: usize = 0;
    assert(reps@.skip(0) =~= reps@);
    while i < n
        invariant
            n == reps@.len(),
            i <= n,
            match replacement_index(reps@.skip(i as int), key@) {
                Some(k) => replacement_index(reps@, key@) == Some(k + i),
                None => replacement_index(reps@, key@) is None,
            },
        decreases n - i,
    {
        let ghost rest = reps@.skip(i as int);
        assert(rest.drop_first() =~= reps@.skip(i + 1));
        assert(rest[0] == reps@[i as int]);
        if str_equals(reps[i].0.as_str(), key) {
            return Some(i);
        }
        i = i + 1;
    }
    None
}

/// Some part of the format (its fallbacks, members, contents and
/// replacements included) shows the song's queue position.
pub open spec fn shows_position(p: &Property) -> bool
    decreases p, 1int,
{
    (match &p.default {
        Some(d) => shows_position(d),
        None => false,
    }) || match &p.kind {
        PropertyKindOrText::Property(prop) => prop is Position,
        PropertyKindOrText::Group(items) => any_shows_position(items@),
        PropertyKindOrText::Transform(Transform::Replace { content, replacements }) => shows_position(content)
            || any_replacement_shows_position(replacements@),
        PropertyKindOrText::Transform(Transform::Truncate { content, .. }) => shows_position(content),
        _ => false,
    }
}

/// Some format of `items` shows the queue position.
pub open spec fn any_shows_position(items: Seq<Property>) -> bool
    decreases items, 1int,
{
    if items.len() == 0 {
        false
    } else {
        any_shows_position(items.drop_last()) || shows_position(&items.last())
    }
}

/// Some replacement of `reps` shows the queue position.
pub open spec fn any_replacement_shows_position(reps: Seq<(String, Property)>) -> bool
    decreases reps, 1int,
{
    if reps.len() == 0 {
        false
    } else {
        any_replacement_shows_position(reps.drop_last()) || shows_position(&reps.last().1)
    }
}

pub proof fn lemma_member_shows(items: Seq<Property>, i: int)
    requires
        0 <= i < items.len(),
        shows_position(&items[i]),
    ensures
        any_shows_position(items),
    decreases items.len(),
{
    if i < items.len() - 1 {
        lemma_member_shows(items.drop_last(), i);
        assert(items.drop_last()[i] == items[i]);
    }
}

pub proof fn lemma_replacement_shows(reps: Seq<(String, Property)>, i: int)
    requires
        0 <= i < reps.len(),
        shows_position(&reps[i].1),
    ensures
        any_replacement_shows_position(reps),
    decreases reps.len(),
{
    if i < reps.len() - 1 {
        lemma_replacement_shows(reps.drop_last(), i);
        assert(reps.drop_last()[i] == reps[i]);
    }
}

/// The format can be resolved for the song: a format that shows the queue
/// position needs a position that does not overflow when counted from one.
pub open spec fn formattable(p: &Property, song: Option<&Song>) -> bool {
    match song {
        Some(s) => shows_position(p) ==> !position_overflows(s),
        None => true,
    }
}

impl Property {
    fn fallback(
        &self,
        song: Option<&Song>,
        stickers: Option<&Stickers>,
        tag_separator: &str,
        strategy: TagResolutionStrategy,
    ) -> (r: Option<String>)
        requires
            formattable(self, song),
        ensures
            opt_view(r) == fallback_text(self, song, stickers, tag_separator@, strategy),
        decreases self, 0int,
    {
        match &self.default {
            Some(d) => d.as_string(song, stickers, tag_separator, strategy),
            None => None,
        }
    }

    /// The text this format resolves to for `song` (whose stickers are
    /// `stickers`), falling back to the default format where it does not
    /// resolve.
    #[verifier::loop_isolation(false)]
    pub fn as_string(
        &self,
        song: Option<&Song>,
        stickers: Option<&Stickers>,
        tag_separator: &str,
        strategy: TagResolutionStrategy,
    ) -> (r: Option<String>)
        requires
            formattable(self, song),
        ensures
            opt_view(r) == property_text(self, song, stickers, tag_separator@, strategy),
        decreases self, 1int,
    {
        match &self.kind {
            PropertyKindOrText::Text(value) => Some(value.clone()),
            PropertyKindOrText::Sticker(key) => {
                let found = match (song, stickers) {
                    (Some(_), Some(st)) => find_sticker(st, key.as_str()),
                    _ => None,
                };
                match found {
                    Some(v) => Some(v),
                    None => self.fallback(song, stickers, tag_separator, strategy),
                }
            },
            PropertyKindOrText::Property(property) => match song {
                Some(s) => match s.format(property, tag_separator, strategy) {
                    Some(v) => Some(v),
                    None => self.fallback(song, stickers, tag_separator, strategy),
                },
                None => self.fallback(song, stickers, tag_separator, strategy),
            },
            PropertyKindOrText::Group(group) => {
                let mut buf = String::new();
                let n = group.len();
                let mut i: usize = 0;
                assert(group@.take(0) =~= Seq::<Property>::empty());
                while i < n
                    invariant
                        n == group@.len(),
                        i <= n,
                        formattable(self, song),
                        group_text(group@.take(i as int), song, stickers, tag_separator@, strategy)
                            == Some(buf@),
                    decreases n - i,
                {
                    assert(group@.take(i + 1).drop_last() =~= group@.take(i as int));
                    assert(group@.take(i + 1).last() == group@[i as int]);
                    let item = &group[i];
                    assert(decreases_to!(self => group@[i as int]));
                    proof {
                        if shows_position(&group@[i as int]) {
                            lemma_member_shows(group@, i as int);
                        }
                    }
                    match item.as_string(song, stickers, tag_separator, strategy) {
                        Some(res) => {
                            buf.append(res.as_str());
                        },
                        None => {
                            proof {
                                lemma_group_prefix_none(
                                    group@,
                                    (i + 1) as int,
                                    song,
                                    stickers,
                                    tag_separator@,
                                    strategy,
                                );
                            }
                            return self.fallback(song, stickers, tag_separator, strategy);
                        },
                    }
                    i = i + 1;
                }
                assert(group@.take(n as int) =~= group@);
                Some(buf)
            },
            PropertyKindOrText::Transform(Transform::Replace { content, replacements }) => {
                match content.as_string(song, stickers, tag_separator, strategy) {
                    Some(result) => match find_replacement(replacements, result.as_str()) {
                        Some(i) => {
                            proof {
                                lemma_replacement_index(replacements@, result@);
                                if shows_position(&replacements@[i as int].1) {
                                    lemma_replacement_shows(replacements@, i as int);
                                }
                            }
                            let replacement = &replacements[i].1;
                            match replacement.as_string(song, stickers, tag_separator, strategy) {
                                Some(v) => Some(v),
                                None => match replacement.fallback(
                                    song,
                                    stickers,
                                    tag_separator,
                                    strategy,
                                ) {
                                    Some(v) => Some(v),
                                    None => self.fallback(song, stickers, tag_separator, strategy),
                                },
                            }
                        },
                        None => Some(result),
                    },
                    None => self.fallback(song, stickers, tag_separator, strategy),
                }
            },
            PropertyKindOrText::Transform(Transform::Truncate { content, length, from_start }) => {
                match content.as_string(song, stickers, tag_separator, strategy) {
                    Some(result) => {
                        let chars = to_chars(result.as_str());
                        let kept = if *from_start {
                            truncate_start(&chars, *length)
                        } else {
                            truncate_end(&chars, *length)
                        };
                        Some(chars_to_string(kept.as_slice()))
                    },
                    None => self.fallback(song, stickers, tag_separator, strategy),
                }
            },
        }
    }
}

/// Once a member of a group does not resolve, neither does any longer
/// prefix of the group.
pub proof fn lemma_group_prefix_none(
    items: Seq<Property>,
    k: int,
    song: Option<&Song>,
    stickers: Option<&Stickers>,
    sep: Seq<char>,
    strategy: TagResolutionStrategy,
)
    requires
        0 < k <= items.len(),
        property_text(&items[k - 1], song, stickers, sep, strategy) is None,
    ensures
        group_text(items, song, stickers, sep, strategy) is None,
    decreases items.len(),
{
    if k == items.len() {
        assert(items.last() == items[k - 1]);
    } else {
        lemma_group_prefix_none(items.drop_last(), k, song, stickers, sep, strategy);
        assert(items.drop_last()[k - 1] == items[k - 1]);
    }
}

/// Whether one format of a song matches a filter: `Some(true)` when its
/// text, lowercased, contains the lowercased filter; for stickers and
/// properties the fallback format is tried when the song lacks the value;
/// `None` when nothing could be resolved.
pub open spec fn format_matches(
    song: &Song,
    f: &Property,
    filter: Seq<char>,
    stickers: Option<&Stickers>,
) -> Option<bool>
    decreases f,
{
    let fallback = match &f.default {
        Some(d) => Some(format_matches(song, d, filter, stickers) == Some(true)),
        None => None,
    };
    match &f.kind {
        PropertyKindOrText::Text(value) => Some(contains_ignoring_case(value@, filter)),
        PropertyKindOrText::Sticker(key) => match stickers {
            Some(st) => match sticker_lookup(st@, key@) {
                Some(v) => Some(contains_ignoring_case(v, filter)),
                None => fallback,
            },
            None => fallback,
        },
        PropertyKindOrText::Property(prop) => match format_spec(
            song,
            prop,
            Seq::empty(),
            TagResolutionStrategy::All,
        ) {
            Some(v) => Some(contains_ignoring_case(v, filter)),
            None => fallback,
        },
        _ => match property_text(f, Some(song), stickers, Seq::empty(), TagResolutionStrategy::All) {
            Some(v) => Some(contains_ignoring_case(v, filter)),
            None => None,
        },
    }
}

impl Song {
    fn format_matches_exec(&self, f: &Property, filter: &str, stickers: Option<&Stickers>) -> (r:
        Option<bool>)
        requires
            formattable(f, Some(self)),
        ensures
            r == format_matches(self, f, filter@, stickers),
        decreases f,
    {
        proof {
            reveal_strlit("");
            assert(""@ =~= Seq::<char>::empty());
        }
        let fallback = match &f.default {
            Some(d) => Some(self.format_matches_exec(d, filter, stickers) == Some(true)),
            None => None,
        };
        match &f.kind {
            PropertyKindOrText::Text(value) => Some(contains_ignore_case(value.as_str(), filter)),
            PropertyKindOrText::Sticker(key) => {
                let found = match stickers {
                    Some(st) => find_sticker(st, key.as_str()),
                    None => None,
                };
                match found {
                    Some(v) => Some(contains_ignore_case(v.as_str(), filter)),
                    None => fallback,
                }
            },
            PropertyKindOrText::Property(property) => {
                match self.format(property, "", TagResolutionStrategy::All) {
                    Some(v) => Some(contains_ignore_case(v.as_str(), filter)),
                    None => fallback,
                }
            },
            _ => match f.as_string(Some(self), stickers, "", TagResolutionStrategy::All) {
                Some(v) => Some(contains_ignore_case(v.as_str(), filter)),
                None => None,
            },
        }
    }

    /// Whether any of `formats`, resolved for this song, contains `filter`
    /// regardless of case.
    pub fn matches(&self, formats: &Vec<Property>, filter: &str, stickers: Option<&Stickers>) -> (r:
        bool)
        requires
            forall|i: int| 0 <= i < formats@.len() ==> formattable(#[trigger] &formats@[i], Some(self)),
        ensures
            r == exists|i: int|
                0 <= i < formats@.len() && format_matches(self, &formats@[i], filter@, stickers)
                    == Some(true),
    {
        let n = formats.len();
        for i in 0..n
            invariant
                n == formats@.len(),
                forall|i: int| 0 <= i < formats@.len() ==> formattable(#[trigger] &formats@[i], Some(self)),
                forall|j: int|
                    0 <= j < i ==> format_matches(self, &formats@[j], filter@, stickers) != Some(
                        true,
                    ),
        {
            if self.format_matches_exec(&formats[i], filter, stickers) == Some(true) {
                return true;
            }
        }
        false
    }
}


/// Some format of `formats` resolved for the song contains the filter,
/// ignoring case: what `Song::matches` answers.
pub open spec fn some_format_matches(song: &Song, formats: Seq<Property>, filter: Seq<char>, stickers: Option<&Stickers>) -> bool {
    exists|i: int| 0 <= i < formats.len() && format_matches(song, &formats[i], filter, stickers) == Some(true)
}

/// A song that matches a filter in some formats still matches it when
/// more formats are added before or after them.
pub proof fn law_matches_with_more_formats(
    song: &Song,
    f: Seq<Property>,
    g: Seq<Property>,
    filter: Seq<char>,
    stickers: Option<&Stickers>,
)
    requires
        some_format_matches(song, f, filter, stickers),
    ensures
        some_format_matches(song, f + g, filter, stickers),
        some_format_matches(song, g + f, filter, stickers),
{
    let i = choose|i: int| 0 <= i < f.len() && format_matches(song, &f[i], filter, stickers) == Some(true);
    assert((f + g)[i] == f[i]);
    assert((g + f)[g.len() + i] == f[i]);
}


/// Truncating a format keeps the last `length` characters (from the start
/// cut) or the first `length` characters of what its content resolves to,
/// fewer when the text is shorter; when the content does not resolve, the
/// format's fallback counts.
pub proof fn law_truncate_keeps_characters(
    content: Property,
    length: usize,
    from_start: bool,
    default: Option<Box<Property>>,
    song: Option<&Song>,
    stickers: Option<&Stickers>,
    sep: Seq<char>,
    strategy: TagResolutionStrategy,
)
    ensures
        ({
            let f = Property {
                kind: PropertyKindOrText::Transform(Transform::Truncate { content: Box::new(content), length, from_start }),
                default,
            };
            property_text(&f, song, stickers, sep, strategy) == match property_text(&content, song, stickers, sep, strategy) {
                Some(v) => Some(
                    if from_start {
                        v.subrange(v.len() - (if v.len() < length { v.len() as int } else { length as int }), v.len() as int)
                    } else {
                        v.subrange(0, if v.len() < length { v.len() as int } else { length as int })
                    },
                ),
                None => match default {
                    Some(d) => property_text(&*d, song, stickers, sep, strategy),
                    None => None,
                },
            }
        }),
{
    let f = Property {
        kind: PropertyKindOrText::Transform(Transform::Truncate { content: Box::new(content), length, from_start }),
        default,
    };
    assert(fallback_text(&f, song, stickers, sep, strategy) == match default {
        Some(d) => property_text(&*d, song, stickers, sep, strategy),
        None => None,
    });
    assert(property_text(&f, song, stickers, sep, strategy) == match property_text(&content, song, stickers, sep, strategy) {
        Some(v) => Some(
            if from_start {
                keep_last(v, length as nat)
            } else {
                keep_first(v, length as nat)
            },
        ),
        None => fallback_text(&f, song, stickers, sep, strategy),
    });
    match property_text(&content, song, stickers, sep, strategy) {
        Some(v) => {
            if from_start {
                assert(keep_last(v, length as nat) =~= v.subrange(
                    v.len() - (if v.len() < length { v.len() as int } else { length as int }),
                    v.len() as int,
                ));
            } else {
                assert(keep_first(v, length as nat) =~= v.subrange(
                    0,
                    if v.len() < length { v.len() as int } else { length as int },
                ));
            }
        },
        None => {},
    }
}

} // verus!
