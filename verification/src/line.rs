//! The text of a song's row in a table column: a format resolved as for
//! plain text, but with each piece of text cut to the column's width with
//! an ellipsis before it is combined.
use vstd::prelude::*;

use crate::property::{
    find_replacement, find_sticker, lemma_replacement_index, opt_view, replacement_index,
    formattable, lemma_member_shows, lemma_replacement_shows, shows_position, sticker_lookup, Property,
    PropertyKindOrText, Stickers, Transform,
};
use crate::song::{format_spec, Song, TagResolutionStrategy};
use crate::text::{
    chars_to_string, ellipsize, ellipsized, keep_first, keep_last, to_chars, truncate_end,
    truncate_start,
};

verus! {

/// How the pieces of a row are cut: the column's width and the ellipsis.
pub struct Cut {
    pub max_len: usize,
    pub ellipsis: String,
}

/// A piece of text cut to the column.
pub open spec fn cut_text(v: Seq<char>, cut: Cut) -> Seq<char> {
    ellipsized(v, cut.max_len as nat, cut.ellipsis@)
}

/// The row text of the fallback of `p`, if it has one that resolves.
pub open spec fn line_fallback(
    p: &Property,
    song: &Song,
    stickers: Option<&Stickers>,
    cut: Cut,
    sep: Seq<char>,
    strategy: TagResolutionStrategy,
) -> Option<Seq<char>>
    decreases p, 0int,
{
    match &p.default {
        Some(d) => line_text(d, song, stickers, cut, sep, strategy),
        None => None,
    }
}

/// The row text of a format for a song: texts, stickers and properties cut
/// to the column, groups concatenated, replacements looked up on the cut
/// text, truncation applied to it; `None` when neither the format nor its
/// fallbacks resolve.
pub open spec fn line_text(
    p: &Property,
    song: &Song,
    stickers: Option<&Stickers>,
    cut: Cut,
    sep: Seq<char>,
    strategy: TagResolutionStrategy,
) -> Option<Seq<char>>
    decreases p, 1int,
{
    match &p.kind {
        PropertyKindOrText::Text(v) => Some(cut_text(v@, cut)),
        PropertyKindOrText::Sticker(key) => match stickers {
            Some(st) => match sticker_lookup(st@, key@) {
                Some(v) => Some(cut_text(v, cut)),
                None => line_fallback(p, song, stickers, cut, sep, strategy),
            },
            None => line_fallback(p, song, stickers, cut, sep, strategy),
        },
        PropertyKindOrText::Property(prop) => match format_spec(song, prop, sep, strategy) {
            Some(v) => Some(cut_text(v, cut)),
            None => line_fallback(p, song, stickers, cut, sep, strategy),
        },
        PropertyKindOrText::Group(items) => match line_group(items@, song, stickers, cut, sep, strategy) {
            Some(v) => Some(v),
            None => line_fallback(p, song, stickers, cut, sep, strategy),
        },
        PropertyKindOrText::Transform(Transform::Replace { content, replacements }) => {
            match line_text(content, song, stickers, cut, sep, strategy) {
                Some(result) => match replacement_index(replacements@, result) {
                    Some(i) => {
                        proof {
                            lemma_replacement_index(replacements@, result);
                        }
                        match line_text(&replacements@[i].1, song, stickers, cut, sep, strategy) {
                            Some(v) => Some(v),
                            None => match line_fallback(&replacements@[i].1, song, stickers, cut, sep, strategy) {
                                Some(v) => Some(v),
                                None => line_fallback(p, song, stickers, cut, sep, strategy),
                            },
                        }
                    },
                    None => Some(result),
                },
                None => line_fallback(p, song, stickers, cut, sep, strategy),
            }
        },
        PropertyKindOrText::Transform(Transform::Truncate { content, length, from_start }) => {
            match line_text(content, song, stickers, cut, sep, strategy) {
                Some(v) => Some(
                    if *from_start {
                        keep_last(v, *length as nat)
                    } else {
                        keep_first(v, *length as nat)
                    },
                ),
                None => line_fallback(p, song, stickers, cut, sep, strategy),
            }
        },
    }
}

/// The members' row texts concatenated; `None` as soon as one does not
/// resolve.
pub open spec fn line_group(
    items: Seq<Property>,
    song: &Song,
    stickers: Option<&Stickers>,
    cut: Cut,
    sep: Seq<char>,
    strategy: TagResolutionStrategy,
) -> Option<Seq<char>>
    decreases items, 1int,
{
    if items.len() == 0 {
        Some(Seq::empty())
    } else {
        match line_group(items.drop_last(), song, stickers, cut, sep, strategy) {
            Some(init) => match line_text(&items.last(), song, stickers, cut, sep, strategy) {
                Some(v) => Some(init + v),
                None => None,
            },
            None => None,
        }
    }
}

/// Once a member of a group does not resolve, neither does any longer
/// prefix of the group.
proof fn lemma_line_group_prefix_none(
    items: Seq<Property>,
    k: int,
    song: &Song,
    stickers: Option<&Stickers>,
    cut: Cut,
    sep: Seq<char>,
    strategy: TagResolutionStrategy,
)
    requires
        0 < k <= items.len(),
        line_text(&items[k - 1], song, stickers, cut, sep, strategy) is None,
    ensures
        line_group(items, song, stickers, cut, sep, strategy) is None,
    decreases items.len(),
{
    if k == items.len() {
        assert(items.last() == items[k - 1]);
    } else {
        lemma_line_group_prefix_none(items.drop_last(), k, song, stickers, cut, sep, strategy);
        assert(items.drop_last()[k - 1] == items[k - 1]);
    }
}

fn cut_exec(v: &str, cut: &Cut) -> (r: String)
    ensures
        r@ == cut_text(v@, *cut),
{
    ellipsize(v, cut.max_len, cut.ellipsis.as_str())
}

impl Property {
    fn line_fallback_exec(
        &self,
        song: &Song,
        stickers: Option<&Stickers>,
        cut: &Cut,
        tag_separator: &str,
        strategy: TagResolutionStrategy,
    ) -> (r: Option<String>)
        requires
            formattable(self, Some(song)),
        ensures
            opt_view(r) == line_fallback(self, song, stickers, *cut, tag_separator@, strategy),
        decreases self, 0int,
    {
        match &self.default {
            Some(d) => d.as_line_ellipsized(song, stickers, cut, tag_separator, strategy),
            None => None,
        }
    }

    /// The text of the song's row in a column of this format, each piece
    /// cut to the column with the ellipsis.
    #[verifier::loop_isolation(false)]
    pub fn as_line_ellipsized(
        &self,
        song: &Song,
        stickers: Option<&Stickers>,
        cut: &Cut,
        tag_separator: &str,
        strategy: TagResolutionStrategy,
    ) -> (r: Option<String>)
        requires
            formattable(self, Some(song)),
        ensures
            opt_view(r) == line_text(self, song, stickers, *cut, tag_separator@, strategy),
        decreases self, 1int,
    {
        match &self.kind {
            PropertyKindOrText::Text(value) => Some(cut_exec(value.as_str(), cut)),
            PropertyKindOrText::Sticker(key) => {
                let found = match stickers {
                    Some(st) => find_sticker(st, key.as_str()),
                    None => None,
                };
                match found {
                    Some(v) => Some(cut_exec(v.as_str(), cut)),
                    None => self.line_fallback_exec(song, stickers, cut, tag_separator, strategy),
                }
            },
            PropertyKindOrText::Property(property) => match song.format(property, tag_separator, strategy) {
                Some(v) => Some(cut_exec(v.as_str(), cut)),
                None => self.line_fallback_exec(song, stickers, cut, tag_separator, strategy),
            },
            PropertyKindOrText::Group(group) => {
                let mut buf = String::new();
                let n = group.len();
                let mut i: usize = 0;
                assert(group@.take(0) =~= Seq::<Property>::empty());
                while i < n
                    invariant
                        n == group@.len(),
                        i <= n,
                        formattable(self, Some(song)),
                        line_group(group@.take(i as int), song, stickers, *cut, tag_separator@, strategy)
                            == Some(buf@),
                    decreases n - i,
                {
                    assert(group@.take(i + 1).drop_last() =~= group@.take(i as int));
                    assert(group@.take(i + 1).last() == group@[i as int]);
                    let item = &group[i];
                    assert(decreases_to!(self => group@[i as int]));
                    proof {
                        if shows_position(&group@[i as int]) {
                            lemma_member_shows(group@, i as int);
                        }
                    }
                    match item.as_line_ellipsized(song, stickers, cut, tag_separator, strategy) {
                        Some(res) => {
                            buf.append(res.as_str());
                        },
                        None => {
                            proof {
                                lemma_line_group_prefix_none(
                                    group@,
                                    (i + 1) as int,
                                    song,
                                    stickers,
                                    *cut,
                                    tag_separator@,
                                    strategy,
                                );
                            }
                            return self.line_fallback_exec(song, stickers, cut, tag_separator, strategy);
                        },
                    }
                    i = i + 1;
                }
                assert(group@.take(n as int) =~= group@);
                Some(buf)
            },
            PropertyKindOrText::Transform(Transform::Replace { content, replacements }) => {
                match content.as_line_ellipsized(song, stickers, cut, tag_separator, strategy) {
                    Some(result) => match find_replacement(replacements, result.as_str()) {
                        Some(i) => {
                            proof {
                                lemma_replacement_index(replacements@, result@);
                                if shows_position(&replacements@[i as int].1) {
                                    lemma_replacement_shows(replacements@, i as int);
                                }
                            }
                            let replacement = &replacements[i].1;
                            match replacement.as_line_ellipsized(song, stickers, cut, tag_separator, strategy) {
                                Some(v) => Some(v),
                                None => match replacement.line_fallback_exec(song, stickers, cut, tag_separator, strategy) {
                                    Some(v) => Some(v),
                                    None => self.line_fallback_exec(song, stickers, cut, tag_separator, strategy),
                                },
                            }
                        },
                        None => Some(result),
                    },
                    None => self.line_fallback_exec(song, stickers, cut, tag_separator, strategy),
                }
            },
            PropertyKindOrText::Transform(Transform::Truncate { content, length, from_start }) => {
                match content.as_line_ellipsized(song, stickers, cut, tag_separator, strategy) {
                    Some(result) => {
                        let chars = to_chars(result.as_str());
                        let kept = if *from_start {
                            truncate_start(&chars, *length)
                        } else {
                            truncate_end(&chars, *length)
                        };
                        Some(chars_to_string(kept.as_slice()))
                    },
                    None => self.line_fallback_exec(song, stickers, cut, tag_separator, strategy),
                }
            },
        }
    }
}

} // verus!
