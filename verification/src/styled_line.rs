//! A song's row in a table column as a line of styled spans: each piece of
//! text cut to the column's width, split into its lines, and carrying the
//! styles of the formats around it, outermost first.
use vstd::prelude::*;

use crate::line::{cut_text, Cut};
use crate::property::{find_sticker, sticker_lookup, Stickers};
use crate::song::{format_spec, Song, TagResolutionStrategy};
use crate::spans::{
    find_key, key_index, lemma_key_index, lemma_styled_member_shows, lemma_styled_replacement_shows, list_text,
    replacement_keys, styled_formattable, styled_shows_position, take_spans_back, take_spans_front, PropertyKind,
    StyledKind, StyledProperty,
};
use crate::text::{chars_to_string, ellipsize, keep_first, keep_last, to_chars, truncate_end, truncate_start, views};

verus! {

/// A line without a trailing carriage return.
pub open spec fn strip_cr(cur: Seq<char>) -> Seq<char> {
    if cur.len() > 0 && cur.last() == '\r' {
        cur.drop_last()
    } else {
        cur
    }
}

/// The lines of `s`, the line begun being `cur`: split at each line feed,
/// each line that ends in a line feed without its carriage return, the
/// last line only when it is not empty.
pub open spec fn lines_from(s: Seq<char>, cur: Seq<char>) -> Seq<Seq<char>>
    decreases s.len(),
{
    if s.len() == 0 {
        if cur.len() == 0 {
            Seq::empty()
        } else {
            seq![cur]
        }
    } else if s[0] == '\n' {
        seq![strip_cr(cur)] + lines_from(s.drop_first(), Seq::empty())
    } else {
        lines_from(s.drop_first(), cur.push(s[0]))
    }
}

/// The lines of a text, as `str::lines` gives them.
pub open spec fn text_lines(s: Seq<char>) -> Seq<Seq<char>> {
    lines_from(s, Seq::empty())
}

/// The lines of `s`.
pub fn split_lines(s: &str) -> (r: Vec<String>)
    ensures
        views(r@) == text_lines(s@),
{
    let chars = to_chars(s);
    let n = chars.len();
    let mut r: Vec<String> = Vec::new();
    let mut cur: Vec<char> = Vec::new();
    assert(s@.skip(0) =~= s@);
    for i in 0..n
        invariant
            n == chars@.len(),
            chars@ == s@,
            views(r@) + lines_from(s@.skip(i as int), cur@) == text_lines(s@),
    {
        let ghost rest = s@.skip(i as int);
        assert(rest[0] == chars@[i as int]);
        assert(rest.drop_first() =~= s@.skip(i + 1));
        let ghost before = views(r@);
        let ghost old_cur = cur@;
        let c = chars[i];
        if c == '\n' {
            let mut line = cur;
            if line.len() > 0 && line[line.len() - 1] == '\r' {
                line.pop();
            }
            assert(line@ =~= strip_cr(old_cur));
            r.push(chars_to_string(line.as_slice()));
            assert(views(r@) =~= before + seq![strip_cr(old_cur)]);
            cur = Vec::new();
            assert(cur@ =~= Seq::<char>::empty());
            assert(views(r@) + lines_from(s@.skip(i + 1), cur@) =~= before + lines_from(rest, old_cur));
        } else {
            cur.push(c);
            assert(cur@ =~= old_cur.push(c));
        }
    }
    assert(s@.skip(n as int) =~= Seq::<char>::empty());
    if cur.len() > 0 {
        let ghost before = views(r@);
        r.push(chars_to_string(cur.as_slice()));
        assert(views(r@) =~= before + seq![cur@]);
    }
    r
}


/// A span of a row: its text and the styles it is drawn in, outermost
/// first, each laid over the ones before it (`None` standing for the
/// default style).
pub struct LineSpan<S> {
    pub text: String,
    pub styles: Vec<Option<S>>,
}

/// A row: its spans and the style of the whole line.
pub struct StyledLine<S> {
    pub spans: Vec<LineSpan<S>>,
    pub style: Option<S>,
}

/// A span as plain values.
pub open spec fn span_value<S>(s: LineSpan<S>) -> (Seq<char>, Seq<Option<S>>) {
    (s.text@, s.styles@)
}

/// Spans as plain values.
pub open spec fn spans_value<S>(v: Seq<LineSpan<S>>) -> Seq<(Seq<char>, Seq<Option<S>>)> {
    v.map_values(|s: LineSpan<S>| span_value(s))
}

/// A row as plain values: its spans and its style.
pub open spec fn line_value<S>(l: StyledLine<S>) -> (Seq<(Seq<char>, Seq<Option<S>>)>, Option<S>) {
    (spans_value(l.spans@), l.style)
}

/// An optional row as plain values.
pub open spec fn opt_line<S>(l: Option<StyledLine<S>>) -> Option<(Seq<(Seq<char>, Seq<Option<S>>)>, Option<S>)> {
    match l {
        Some(x) => Some(line_value(x)),
        None => None,
    }
}

/// The spans of a piece of text: one per line, in the default style.
pub open spec fn text_spans<S>(t: Seq<char>) -> Seq<(Seq<char>, Seq<Option<S>>)> {
    text_lines(t).map_values(|x: Seq<char>| (x, Seq::<Option<S>>::empty()))
}

/// The spans of a member of a group: drawn in the member's line style,
/// with their own styles laid over it.
pub open spec fn under_style<S>(l: Seq<(Seq<char>, Seq<Option<S>>)>, outer: Option<S>) -> Seq<(Seq<char>, Seq<Option<S>>)> {
    l.map_values(|x: (Seq<char>, Seq<Option<S>>)| (x.0, seq![outer] + x.1))
}

/// The row of the fallback of `p`, if it has one that resolves.
pub open spec fn line_fallback<S>(
    p: &StyledProperty<S>,
    song: &Song,
    stickers: Option<&Stickers>,
    cut: Cut,
    sep: Seq<char>,
    strategy: TagResolutionStrategy,
) -> Option<(Seq<(Seq<char>, Seq<Option<S>>)>, Option<S>)>
    decreases p, 0int,
{
    match &p.default {
        Some(d) => styled_line(d, song, stickers, cut, sep, strategy),
        None => None,
    }
}

/// The row of a format for a song: texts, stickers and song properties cut
/// to the column and split into lines, in the format's style; a group's
/// members one after another, each under its own line style, the whole in
/// the group's style; replacements looked up on the row's text; truncation
/// keeping the first or last characters span by span. `None` when neither
/// the format nor its fallbacks resolve, and for formats of the player's
/// status, which rows do not show.
pub open spec fn styled_line<S>(
    p: &StyledProperty<S>,
    song: &Song,
    stickers: Option<&Stickers>,
    cut: Cut,
    sep: Seq<char>,
    strategy: TagResolutionStrategy,
) -> Option<(Seq<(Seq<char>, Seq<Option<S>>)>, Option<S>)>
    decreases p, 1int,
{
    match &p.kind {
        StyledKind::Text(v) => Some((text_spans(cut_text(v@, cut)), p.style)),
        StyledKind::Sticker(key) => match stickers {
            Some(st) => match sticker_lookup(st@, key@) {
                Some(v) => Some((text_spans(cut_text(v, cut)), p.style)),
                None => line_fallback(p, song, stickers, cut, sep, strategy),
            },
            None => line_fallback(p, song, stickers, cut, sep, strategy),
        },
        StyledKind::Property(PropertyKind::Song(prop)) => match format_spec(song, prop, sep, strategy) {
            Some(v) => Some((text_spans(cut_text(v, cut)), p.style)),
            None => line_fallback(p, song, stickers, cut, sep, strategy),
        },
        StyledKind::Property(_) => None,
        StyledKind::Group(items) => match styled_group(items@, song, stickers, cut, sep, strategy) {
            Some(l) => Some((l, p.style)),
            None => line_fallback(p, song, stickers, cut, sep, strategy),
        },
        StyledKind::Replace { content, replacements } => match styled_line(content, song, stickers, cut, sep, strategy) {
            Some(v) => match key_index(replacement_keys(replacements@), list_text(v.0)) {
                Some(i) => {
                    proof {
                        lemma_key_index(replacement_keys(replacements@), list_text(v.0));
                    }
                    match styled_line(&replacements@[i].1, song, stickers, cut, sep, strategy) {
                        Some(r) => Some(r),
                        None => match line_fallback(&replacements@[i].1, song, stickers, cut, sep, strategy) {
                            Some(r) => Some(r),
                            None => line_fallback(p, song, stickers, cut, sep, strategy),
                        },
                    }
                },
                None => Some(v),
            },
            None => line_fallback(p, song, stickers, cut, sep, strategy),
        },
        StyledKind::Truncate { content, length, from_start } => match styled_line(content, song, stickers, cut, sep, strategy) {
            Some(v) => Some((
                if *from_start {
                    take_spans_back(v.0, *length as nat)
                } else {
                    take_spans_front(v.0, *length as nat)
                },
                v.1,
            )),
            None => line_fallback(p, song, stickers, cut, sep, strategy),
        },
    }
}

/// The spans of a group's members one after another, each under its line
/// style; `None` as soon as one member does not resolve.
pub open spec fn styled_group<S>(
    items: Seq<StyledProperty<S>>,
    song: &Song,
    stickers: Option<&Stickers>,
    cut: Cut,
    sep: Seq<char>,
    strategy: TagResolutionStrategy,
) -> Option<Seq<(Seq<char>, Seq<Option<S>>)>>
    decreases items, 1int,
{
    if items.len() == 0 {
        Some(Seq::empty())
    } else {
        match styled_group(items.drop_last(), song, stickers, cut, sep, strategy) {
            Some(init) => match styled_line(&items.last(), song, stickers, cut, sep, strategy) {
                Some(v) => Some(init + under_style(v.0, v.1)),
                None => None,
            },
            None => None,
        }
    }
}

proof fn lemma_styled_group_none<S>(
    items: Seq<StyledProperty<S>>,
    k: int,
    song: &Song,
    stickers: Option<&Stickers>,
    cut: Cut,
    sep: Seq<char>,
    strategy: TagResolutionStrategy,
)
    requires
        0 < k <= items.len(),
        styled_line(&items[k - 1], song, stickers, cut, sep, strategy) is None,
    ensures
        styled_group(items, song, stickers, cut, sep, strategy) is None,
    decreases items.len(),
{
    if k == items.len() {
        assert(items.last() == items[k - 1]);
    } else {
        lemma_styled_group_none(items.drop_last(), k, song, stickers, cut, sep, strategy);
        assert(items.drop_last()[k - 1] == items[k - 1]);
    }
}

fn copy_styles<S: Copy>(v: &Vec<Option<S>>) -> (r: Vec<Option<S>>)
    ensures
        r@ == v@,
{
    let mut r: Vec<Option<S>> = Vec::new();
    for i in 0..v.len()
        invariant
            r@ == v@.take(i as int),
    {
        r.push(v[i]);
        assert(r@ =~= v@.take(i + 1));
    }
    assert(v@.take(v@.len() as int) =~= v@);
    r
}

/// The spans of a cut piece of text.
fn text_spans_exec<S>(t: &str) -> (r: Vec<LineSpan<S>>)
    ensures
        spans_value(r@) == text_spans::<S>(t@),
{
    let lines = split_lines(t);
    let mut r: Vec<LineSpan<S>> = Vec::new();
    for i in 0..lines.len()
        invariant
            views(lines@) == text_lines(t@),
            spans_value(r@) == text_spans::<S>(t@).take(i as int),
    {
        let ghost before = spans_value(r@);
        let line = lines[i].clone();
        assert(line@ == lines@[i as int]@);
        assert(views(lines@)[i as int] == lines@[i as int]@);
        assert(text_spans::<S>(t@)[i as int] == (lines@[i as int]@, Seq::<Option<S>>::empty()));
        let styles: Vec<Option<S>> = Vec::new();
        assert(styles@ =~= Seq::<Option<S>>::empty());
        r.push(LineSpan { text: line, styles });
        assert(spans_value(r@) =~= before.push((lines@[i as int]@, Seq::<Option<S>>::empty())));
        assert(spans_value(r@) =~= text_spans::<S>(t@).take(i + 1));
    }
    assert(text_spans::<S>(t@).take(lines@.len() as int) =~= text_spans::<S>(t@));
    r
}

/// The texts of spans, concatenated.
fn spans_text_exec<S>(l: &Vec<LineSpan<S>>) -> (r: String)
    ensures
        r@ == list_text(spans_value(l@)),
{
    let mut r = String::new();
    for i in 0..l.len()
        invariant
            r@ == list_text(spans_value(l@).take(i as int)),
    {
        assert(spans_value(l@).take(i + 1).drop_last() =~= spans_value(l@).take(i as int));
        r.append(l[i].text.as_str());
    }
    assert(spans_value(l@).take(l@.len() as int) =~= spans_value(l@));
    r
}

fn keep_chars(t: &String, length: usize, from_start: bool) -> (r: String)
    ensures
        r@ == (if from_start {
            keep_last(t@, length as nat)
        } else {
            keep_first(t@, length as nat)
        }),
{
    let chars = to_chars(t.as_str());
    let kept = if from_start {
        truncate_start(&chars, length)
    } else {
        truncate_end(&chars, length)
    };
    chars_to_string(kept.as_slice())
}

/// Keeps the first `length` characters of a row's spans.
fn keep_front<S: Copy>(l: &Vec<LineSpan<S>>, length: usize) -> (r: Vec<LineSpan<S>>)
    ensures
        spans_value(r@) == take_spans_front(spans_value(l@), length as nat),
{
    let ghost v = spans_value(l@);
    let n = l.len();
    let mut buf: Vec<LineSpan<S>> = Vec::new();
    let mut remaining = length;
    let mut i: usize = 0;
    assert(v.skip(0) =~= v);
    while i < n && remaining > 0
        invariant
            n == l@.len(),
            v == spans_value(l@),
            i <= n,
            spans_value(buf@) + take_spans_front(v.skip(i as int), remaining as nat) == take_spans_front(v, length as nat),
        decreases n - i,
    {
        let ghost rest = v.skip(i as int);
        assert(rest[0] == v[i as int]);
        assert(rest.drop_first() =~= v.skip(i + 1));
        let kept = keep_chars(&l[i].text, remaining, false);
        let used = if remaining < l[i].text.unicode_len() {
            remaining
        } else {
            l[i].text.unicode_len()
        };
        let ghost before = spans_value(buf@);
        buf.push(LineSpan { text: kept, styles: copy_styles(&l[i].styles) });
        assert(spans_value(buf@) =~= before + seq![(keep_first(v[i as int].0, remaining as nat), v[i as int].1)]);
        assert(keep_first(v[i as int].0, remaining as nat).len() == used);
        remaining = remaining - used;
        i = i + 1;
    }
    buf
}

/// Keeps the last `length` characters of a row's spans.
fn keep_back<S: Copy>(l: &Vec<LineSpan<S>>, length: usize) -> (r: Vec<LineSpan<S>>)
    ensures
        spans_value(r@) == take_spans_back(spans_value(l@), length as nat),
{
    let ghost v = spans_value(l@);
    let n = l.len();
    let mut buf: Vec<LineSpan<S>> = Vec::new();
    let mut remaining = length;
    let mut i: usize = n;
    assert(v.take(n as int) =~= v);
    while i > 0 && remaining > 0
        invariant
            n == l@.len(),
            v == spans_value(l@),
            i <= n,
            take_spans_back(v.take(i as int), remaining as nat) + spans_value(buf@) == take_spans_back(v, length as nat),
        decreases i,
    {
        let ghost front = v.take(i as int);
        assert(front.last() == v[i - 1]);
        assert(front.drop_last() =~= v.take(i - 1));
        let kept = keep_chars(&l[i - 1].text, remaining, true);
        let used = if remaining < l[i - 1].text.unicode_len() {
            remaining
        } else {
            l[i - 1].text.unicode_len()
        };
        let ghost before = spans_value(buf@);
        buf.insert(0, LineSpan { text: kept, styles: copy_styles(&l[i - 1].styles) });
        assert(spans_value(buf@) =~= seq![(keep_last(v[i - 1].0, remaining as nat), v[i - 1].1)] + before);
        assert(keep_last(v[i - 1].0, remaining as nat).len() == used);
        remaining = remaining - used;
        i = i - 1;
    }
    buf
}


/// A group member's spans, each under the member's line style.
fn push_under<S: Copy>(buf: &mut Vec<LineSpan<S>>, member: StyledLine<S>)
    ensures
        spans_value(final(buf)@) == spans_value(old(buf)@) + under_style(spans_value(member.spans@), member.style),
{
    let ghost start = spans_value(buf@);
    let ghost v = spans_value(member.spans@);
    let n = member.spans.len();
    for j in 0..n
        invariant
            n == member.spans@.len(),
            v == spans_value(member.spans@),
            spans_value(buf@) == start + under_style(v, member.style).take(j as int),
    {
        let mut styles: Vec<Option<S>> = Vec::new();
        styles.push(member.style);
        let inner = copy_styles(&member.spans[j].styles);
        let mut k: usize = 0;
        while k < inner.len()
            invariant
                styles@ == seq![member.style] + inner@.take(k as int),
                k <= inner@.len(),
            decreases inner@.len() - k,
        {
            styles.push(inner[k]);
            assert(styles@ =~= seq![member.style] + inner@.take(k + 1));
            k = k + 1;
        }
        assert(inner@.take(inner@.len() as int) =~= inner@);
        let ghost before = spans_value(buf@);
        buf.push(LineSpan { text: member.spans[j].text.clone(), styles });
        assert(under_style(v, member.style)[j as int] == (v[j as int].0, seq![member.style] + v[j as int].1));
        assert(spans_value(buf@) =~= before.push((v[j as int].0, seq![member.style] + v[j as int].1)));
        assert(under_style(v, member.style).take(j + 1) =~= under_style(v, member.style).take(j as int).push(
            (v[j as int].0, seq![member.style] + v[j as int].1),
        ));
    }
    assert(under_style(v, member.style).take(n as int) =~= under_style(v, member.style));
}

impl<S: Copy> StyledProperty<S> {
    fn line_fallback_exec(
        &self,
        song: &Song,
        stickers: Option<&Stickers>,
        cut: &Cut,
        tag_separator: &str,
        strategy: TagResolutionStrategy,
    ) -> (r: Option<StyledLine<S>>)
        requires
            styled_formattable(self, Some(song)),
        ensures
            opt_line(r) == line_fallback(self, song, stickers, *cut, tag_separator@, strategy),
        decreases self, 0int,
    {
        match &self.default {
            Some(d) => d.as_line_ellipsized(song, stickers, cut, tag_separator, strategy),
            None => None,
        }
    }

    /// The song's row in a column of this format: each piece of text cut
    /// to the column with the ellipsis and split into its lines, in the
    /// styles of the formats around it.
    #[verifier::loop_isolation(false)]
    pub fn as_line_ellipsized(
        &self,
        song: &Song,
        stickers: Option<&Stickers>,
        cut: &Cut,
        tag_separator: &str,
        strategy: TagResolutionStrategy,
    ) -> (r: Option<StyledLine<S>>)
        requires
            styled_formattable(self, Some(song)),
        ensures
            opt_line(r) == styled_line(self, song, stickers, *cut, tag_separator@, strategy),
        decreases self, 1int,
    {
        match &self.kind {
            StyledKind::Text(value) => {
                let t = ellipsize(value.as_str(), cut.max_len, cut.ellipsis.as_str());
                Some(StyledLine { spans: text_spans_exec(t.as_str()), style: self.style })
            },
            StyledKind::Sticker(key) => {
                let found = match stickers {
                    Some(st) => find_sticker(st, key.as_str()),
                    None => None,
                };
                match found {
                    Some(v) => {
                        let t = ellipsize(v.as_str(), cut.max_len, cut.ellipsis.as_str());
                        Some(StyledLine { spans: text_spans_exec(t.as_str()), style: self.style })
                    },
                    None => self.line_fallback_exec(song, stickers, cut, tag_separator, strategy),
                }
            },
            StyledKind::Property(PropertyKind::Song(property)) => match song.format(property, tag_separator, strategy) {
                Some(v) => {
                    let t = ellipsize(v.as_str(), cut.max_len, cut.ellipsis.as_str());
                    Some(StyledLine { spans: text_spans_exec(t.as_str()), style: self.style })
                },
                None => self.line_fallback_exec(song, stickers, cut, tag_separator, strategy),
            },
            StyledKind::Property(_) => None,
            StyledKind::Group(group) => {
                let mut buf: Vec<LineSpan<S>> = Vec::new();
                let n = group.len();
                let mut i: usize = 0;
                assert(group@.take(0) =~= Seq::<StyledProperty<S>>::empty());
                while i < n
                    invariant
                        n == group@.len(),
                        i <= n,
                        styled_formattable(self, Some(song)),
                        styled_group(group@.take(i as int), song, stickers, *cut, tag_separator@, strategy)
                            == Some(spans_value(buf@)),
                    decreases n - i,
                {
                    assert(group@.take(i + 1).drop_last() =~= group@.take(i as int));
                    assert(group@.take(i + 1).last() == group@[i as int]);
                    assert(decreases_to!(self => group@[i as int]));
                    proof {
                        if styled_shows_position(&group@[i as int]) {
                            lemma_styled_member_shows(group@, i as int);
                        }
                    }
                    match group[i].as_line_ellipsized(song, stickers, cut, tag_separator, strategy) {
                        Some(member) => {
                            push_under(&mut buf, member);
                        },
                        None => {
                            proof {
                                lemma_styled_group_none(
                                    group@,
                                    (i + 1) as int,
                                    song,
                                    stickers,
                                    *cut,
                                    tag_separator@,
                                    strategy,
                                );
                            }
                            return self.line_fallback_exec(song, stickers, cut, tag_separator, strategy);
                        },
                    }
                    i = i + 1;
                }
                assert(group@.take(n as int) =~= group@);
                Some(StyledLine { spans: buf, style: self.style })
            },
            StyledKind::Replace { content, replacements } => {
                match content.as_line_ellipsized(song, stickers, cut, tag_separator, strategy) {
                    Some(line) => {
                        let text = spans_text_exec(&line.spans);
                        match find_key(replacements, text.as_str()) {
                            Some(i) => {
                                proof {
                                    lemma_key_index(replacement_keys(replacements@), text@);
                                    assert(replacement_keys(replacements@)[i as int] == replacements@[i as int].0@);
                                    if styled_shows_position(&replacements@[i as int].1) {
                                        lemma_styled_replacement_shows(replacements@, i as int);
                                    }
                                }
                                let replacement = &replacements[i].1;
                                assert(decreases_to!(self => replacements@[i as int].1));
                                match replacement.as_line_ellipsized(song, stickers, cut, tag_separator, strategy) {
                                    Some(v) => Some(v),
                                    None => match replacement.line_fallback_exec(song, stickers, cut, tag_separator, strategy) {
                                        Some(v) => Some(v),
                                        None => self.line_fallback_exec(song, stickers, cut, tag_separator, strategy),
                                    },
                                }
                            },
                            None => Some(line),
                        }
                    },
                    None => self.line_fallback_exec(song, stickers, cut, tag_separator, strategy),
                }
            },
            StyledKind::Truncate { content, length, from_start } => {
                match content.as_line_ellipsized(song, stickers, cut, tag_separator, strategy) {
                    Some(line) => {
                        let spans = if *from_start {
                            keep_back(&line.spans, *length)
                        } else {
                            keep_front(&line.spans, *length)
                        };
                        Some(StyledLine { spans, style: line.style })
                    },
                    None => self.line_fallback_exec(song, stickers, cut, tag_separator, strategy),
                }
            },
        }
    }
}

} // verus!
