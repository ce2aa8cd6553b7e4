//! Formats that resolve to styled text, as the header and the status bar
//! draw them: song properties, status properties and widgets, each in its
//! own style (of type `S`), grouped, replaced or truncated, with fallbacks.
use vstd::prelude::*;

use crate::property::{find_sticker, song_stickers, sticker_lookup, Stickers};
use crate::song::{duration_text, format_duration, format_spec, position_overflows, Song, SongProperty, TagResolutionStrategy};
use crate::status::{
    format_queue_time, opt_text, queue_time_remaining, queue_time_text, queue_time_total, remaining_seconds, spans_view,
    states_spans, states_widget, status_text, style_or, total_seconds, Status, StatusProperty,
};
use crate::text::{chars_to_string, keep_first, keep_last, str_equals, to_chars, truncate_end, truncate_start};

verus! {

/// A widget drawn from the status.
pub enum WidgetProperty<S> {
    /// The volume bar.
    Volume,
    /// Repeat, random, consume and single, in the active style when on.
    States { active_style: S, separator_style: S },
    /// The database update indicator, shown only while an update runs.
    ScanStatus,
}

/// A status value read from the context of the formats.
#[derive(Debug)]
pub enum StatusField {
    /// The length of the song playing, as `m:ss`.
    Duration,
    /// The time played of the song playing, as `m:ss`.
    Elapsed,
    Partition,
    QueueLength,
    /// The length of the queue, as `m:ss`, or spelled out in units joined
    /// by the separator.
    QueueTimeTotal { separator: Option<String> },
    /// The time left in the queue from the song playing on, shown as the
    /// total is.
    QueueTimeRemaining { separator: Option<String> },
    ActiveTab,
}

/// What a styled format can show.
pub enum PropertyKind<S> {
    Song(SongProperty),
    Status(StatusProperty<S>),
    Field(StatusField),
    Widget(WidgetProperty<S>),
}

/// A format with its own style (the base style when it has none) and a
/// fallback.
pub struct StyledProperty<S> {
    pub kind: StyledKind<S>,
    pub style: Option<S>,
    pub default: Option<Box<StyledProperty<S>>>,
}

/// The kinds of styled format.
pub enum StyledKind<S> {
    Text(String),
    Sticker(String),
    Property(PropertyKind<S>),
    /// All members in turn; nothing at all when one of them resolves to
    /// nothing.
    Group(Vec<StyledProperty<S>>),
    /// Replaces the text when it equals a key of `replacements`.
    Replace { content: Box<StyledProperty<S>>, replacements: Vec<(String, StyledProperty<S>)> },
    /// Keeps `length` characters, from the end when `from_start` is set.
    Truncate { content: Box<StyledProperty<S>>, length: usize, from_start: bool },
}

/// What the formats read besides the song and its stickers: the status,
/// the times of the song playing and the lengths of the queue's songs, and
/// the texts already formatted for the other status fields and the
/// widgets.
pub struct SpanContext {
    pub status: Status,
    /// The length of the song playing, in seconds.
    pub duration: u64,
    /// The time played of the song playing, in seconds.
    pub elapsed: u64,
    /// The length of each song of the queue, in seconds, when known.
    pub queue_durations: Vec<Option<u64>>,
    /// The place of the song playing in the queue, if it is there.
    pub current: Option<usize>,
    pub partition: String,
    pub queue_length: String,
    pub active_tab: String,
    pub volume_bar: String,
    /// The update indicator, while the database is being updated.
    pub scan_status: Option<String>,
}

impl SpanContext {
    /// The song playing lies in the queue, and the queue's length fits in
    /// a `u64` of seconds.
    pub open spec fn well_formed(&self) -> bool {
        &&& self.current matches Some(i) ==> i < self.queue_durations@.len()
        &&& total_seconds(self.queue_durations@) <= u64::MAX
    }
}

/// Some part of the format (its fallbacks, members, contents and
/// replacements included) shows the song's queue position.
pub open spec fn styled_shows_position<S>(p: &StyledProperty<S>) -> bool
    decreases p, 1int,
{
    (match &p.default {
        Some(d) => styled_shows_position(d),
        None => false,
    }) || match &p.kind {
        StyledKind::Property(PropertyKind::Song(prop)) => prop is Position,
        StyledKind::Group(items) => any_styled_shows_position(items@),
        StyledKind::Replace { content, replacements } => styled_shows_position(content)
            || any_styled_replacement_shows_position(replacements@),
        StyledKind::Truncate { content, .. } => styled_shows_position(content),
        _ => false,
    }
}

/// Some format of `items` shows the queue position.
pub open spec fn any_styled_shows_position<S>(items: Seq<StyledProperty<S>>) -> bool
    decreases items, 1int,
{
    if items.len() == 0 {
        false
    } else {
        any_styled_shows_position(items.drop_last()) || styled_shows_position(&items.last())
    }
}

/// Some replacement of `reps` shows the queue position.
pub open spec fn any_styled_replacement_shows_position<S>(reps: Seq<(String, StyledProperty<S>)>) -> bool
    decreases reps, 1int,
{
    if reps.len() == 0 {
        false
    } else {
        any_styled_replacement_shows_position(reps.drop_last()) || styled_shows_position(&reps.last().1)
    }
}

pub proof fn lemma_styled_member_shows<S>(items: Seq<StyledProperty<S>>, i: int)
    requires
        0 <= i < items.len(),
        styled_shows_position(&items[i]),
    ensures
        any_styled_shows_position(items),
    decreases items.len(),
{
    if i < items.len() - 1 {
        lemma_styled_member_shows(items.drop_last(), i);
        assert(items.drop_last()[i] == items[i]);
    }
}

pub proof fn lemma_styled_replacement_shows<S>(reps: Seq<(String, StyledProperty<S>)>, i: int)
    requires
        0 <= i < reps.len(),
        styled_shows_position(&reps[i].1),
    ensures
        any_styled_replacement_shows_position(reps),
    decreases reps.len(),
{
    if i < reps.len() - 1 {
        lemma_styled_replacement_shows(reps.drop_last(), i);
        assert(reps.drop_last()[i] == reps[i]);
    }
}

/// The format can be resolved for the song: a format that shows the queue
/// position needs a position that does not overflow when counted from one.
pub open spec fn styled_formattable<S>(p: &StyledProperty<S>, song: Option<&Song>) -> bool {
    match song {
        Some(s) => styled_shows_position(p) ==> !position_overflows(s),
        None => true,
    }
}

/// What a styled format resolves to: one span or several.
pub enum Spans<S> {
    One(String, S),
    Many(Vec<(String, S)>),
}

/// The plain value of resolved spans.
pub enum SpansView<S> {
    One(Seq<char>, S),
    Many(Seq<(Seq<char>, S)>),
}

/// The plain value of `s`.
pub open spec fn spans_value<S>(s: Spans<S>) -> SpansView<S> {
    match s {
        Spans::One(t, st) => SpansView::One(t@, st),
        Spans::Many(v) => SpansView::Many(spans_view(v@)),
    }
}

/// The spans of a resolved value, as a list.
pub open spec fn as_list<S>(v: SpansView<S>) -> Seq<(Seq<char>, S)> {
    match v {
        SpansView::One(t, s) => seq![(t, s)],
        SpansView::Many(l) => l,
    }
}

/// The texts of a list of spans, concatenated.
pub open spec fn list_text<S>(l: Seq<(Seq<char>, S)>) -> Seq<char>
    decreases l.len(),
{
    if l.len() == 0 {
        Seq::empty()
    } else {
        list_text(l.drop_last()) + l.last().0
    }
}

/// The text of a resolved value.
pub open spec fn spans_text<S>(v: SpansView<S>) -> Seq<char> {
    match v {
        SpansView::One(t, _) => t,
        SpansView::Many(l) => list_text(l),
    }
}

/// The text of a status field.
pub open spec fn field_text(ctx: &SpanContext, f: StatusField) -> Seq<char> {
    match f {
        StatusField::Duration => duration_text(ctx.duration as nat),
        StatusField::Elapsed => duration_text(ctx.elapsed as nat),
        StatusField::Partition => ctx.partition@,
        StatusField::QueueLength => ctx.queue_length@,
        StatusField::QueueTimeTotal { separator } => queue_time_text(
            total_seconds(ctx.queue_durations@),
            opt_text(separator),
        ),
        StatusField::QueueTimeRemaining { separator } => queue_time_text(
            remaining_seconds(ctx.queue_durations@, ctx.current, ctx.elapsed as nat),
            opt_text(separator),
        ),
        StatusField::ActiveTab => ctx.active_tab@,
    }
}

/// The first `length` characters of a list of spans, span by span: each
/// span keeps what is left of the allowance, and spans past it are dropped.
pub open spec fn take_spans_front<S>(l: Seq<(Seq<char>, S)>, length: nat) -> Seq<(Seq<char>, S)>
    decreases l.len(),
{
    if l.len() == 0 || length == 0 {
        Seq::empty()
    } else {
        let t = keep_first(l[0].0, length);
        seq![(t, l[0].1)] + take_spans_front(l.drop_first(), (length - t.len()) as nat)
    }
}

/// The last `length` characters of a list of spans, span by span from the
/// end.
pub open spec fn take_spans_back<S>(l: Seq<(Seq<char>, S)>, length: nat) -> Seq<(Seq<char>, S)>
    decreases l.len(),
{
    if l.len() == 0 || length == 0 {
        Seq::empty()
    } else {
        let t = keep_last(l.last().0, length);
        take_spans_back(l.drop_last(), (length - t.len()) as nat).push((t, l.last().1))
    }
}

/// The keys of a list of replacements.
pub open spec fn replacement_keys<S>(reps: Seq<(String, StyledProperty<S>)>) -> Seq<Seq<char>> {
    reps.map_values(|r: (String, StyledProperty<S>)| r.0@)
}

/// The position of the first key equal to `key`.
pub open spec fn key_index(keys: Seq<Seq<char>>, key: Seq<char>) -> Option<int>
    decreases keys.len(),
{
    if keys.len() == 0 {
        None
    } else if keys[0] == key {
        Some(0)
    } else {
        match key_index(keys.drop_first(), key) {
            Some(i) => Some(i + 1),
            None => None,
        }
    }
}

pub proof fn lemma_key_index(keys: Seq<Seq<char>>, key: Seq<char>)
    ensures
        match key_index(keys, key) {
            Some(i) => 0 <= i < keys.len() && keys[i] == key && forall|j: int| 0 <= j < i ==> keys[j] != key,
            None => forall|j: int| 0 <= j < keys.len() ==> keys[j] != key,
        },
    decreases keys.len(),
{
    if keys.len() > 0 {
        lemma_key_index(keys.drop_first(), key);
        if keys[0] != key {
            assert forall|j: int| 0 < j < keys.len() implies keys[j] == keys.drop_first()[j - 1] by {}
        }
    }
}

proof fn lemma_list_text_cons<S>(x: (Seq<char>, S), rest: Seq<(Seq<char>, S)>)
    ensures
        list_text(seq![x] + rest) == x.0 + list_text(rest),
    decreases rest.len(),
{
    let whole = seq![x] + rest;
    if rest.len() == 0 {
        assert(whole =~= seq![x]);
        assert(whole.drop_last() =~= Seq::<(Seq<char>, S)>::empty());
        assert(list_text(whole.drop_last()) == Seq::<char>::empty());
        assert(whole.last() == x);
        assert(list_text(whole) == list_text(whole.drop_last()) + whole.last().0);
        assert(list_text(rest) == Seq::<char>::empty());
        assert(x.0 + list_text(rest) =~= x.0);
        assert(Seq::<char>::empty() + x.0 =~= x.0);
    } else {
        lemma_list_text_cons(x, rest.drop_last());
        assert(whole.drop_last() =~= seq![x] + rest.drop_last());
        assert(whole.last() == rest.last());
        assert(list_text(whole) == list_text(whole.drop_last()) + whole.last().0);
        assert(list_text(rest) == list_text(rest.drop_last()) + rest.last().0);
        assert(x.0 + list_text(rest.drop_last()) + rest.last().0 =~= x.0 + (list_text(rest.drop_last()) + rest.last().0));
    }
}

/// Truncating a list of spans at the end keeps exactly the characters that
/// truncating their concatenated text keeps.
pub proof fn law_span_truncation_end_matches_text<S>(l: Seq<(Seq<char>, S)>, length: nat)
    ensures
        list_text(take_spans_front(l, length)) == keep_first(list_text(l), length),
    decreases l.len(),
{
    if l.len() == 0 {
        assert(list_text(take_spans_front(l, length)) =~= keep_first(list_text(l), length));
    } else if length == 0 {
        assert(keep_first(list_text(l), 0) =~= Seq::<char>::empty());
    } else {
        let rest = l.drop_first();
        let t = keep_first(l[0].0, length);
        let n2 = (length - t.len()) as nat;
        law_span_truncation_end_matches_text(rest, n2);
        lemma_list_text_cons((t, l[0].1), take_spans_front(rest, n2));
        lemma_list_text_cons(l[0], rest);
        assert(l =~= seq![l[0]] + rest);
        let r = list_text(rest);
        if length <= l[0].0.len() {
            assert(n2 == 0);
            assert(keep_first(r, 0) =~= Seq::<char>::empty());
            assert(keep_first(l[0].0 + r, length) =~= t);
            assert(t + Seq::<char>::empty() =~= t);
        } else {
            assert(t == l[0].0);
            assert(keep_first(l[0].0 + r, length) =~= l[0].0 + keep_first(r, n2));
        }
    }
}

/// Truncating a list of spans at the start keeps exactly the characters
/// that truncating their concatenated text keeps.
pub proof fn law_span_truncation_start_matches_text<S>(l: Seq<(Seq<char>, S)>, length: nat)
    ensures
        list_text(take_spans_back(l, length)) == keep_last(list_text(l), length),
    decreases l.len(),
{
    if l.len() == 0 {
        assert(list_text(take_spans_back(l, length)) =~= keep_last(list_text(l), length));
    } else if length == 0 {
        assert(keep_last(list_text(l), 0) =~= Seq::<char>::empty());
    } else {
        let init = l.drop_last();
        let t = keep_last(l.last().0, length);
        let n2 = (length - t.len()) as nat;
        law_span_truncation_start_matches_text(init, n2);
        let front = take_spans_back(init, n2);
        assert(front.push((t, l.last().1)).drop_last() =~= front);
        let r = list_text(init);
        if length <= l.last().0.len() {
            assert(n2 == 0);
            assert(keep_last(r, 0) =~= Seq::<char>::empty());
            assert(keep_last(r + l.last().0, length) =~= t);
            assert(Seq::<char>::empty() + t =~= t);
        } else {
            assert(t == l.last().0);
            assert(keep_last(r + l.last().0, length) =~= keep_last(r, n2) + l.last().0);
        }
    }
}

/// What the fallback of `p` resolves to.
pub open spec fn fallback_spans<S>(
    p: &StyledProperty<S>,
    song: Option<&Song>,
    stickers: Option<&Stickers>,
    ctx: &SpanContext,
    sep: Seq<char>,
    strategy: TagResolutionStrategy,
    base: S,
) -> Option<SpansView<S>>
    decreases p, 0int,
{
    match &p.default {
        Some(d) => property_spans(d, song, stickers, ctx, sep, strategy, base),
        None => None,
    }
}

/// What a styled format resolves to, `base` being the style of formats
/// without one of their own.
pub open spec fn property_spans<S>(
    p: &StyledProperty<S>,
    song: Option<&Song>,
    stickers: Option<&Stickers>,
    ctx: &SpanContext,
    sep: Seq<char>,
    strategy: TagResolutionStrategy,
    base: S,
) -> Option<SpansView<S>>
    decreases p, 1int,
{
    let style = style_or(p.style, base);
    match &p.kind {
        StyledKind::Text(v) => Some(SpansView::One(v@, style)),
        StyledKind::Sticker(key) => match song_stickers(song, stickers) {
            Some(st) => match sticker_lookup(st, key@) {
                Some(v) => Some(SpansView::One(v, style)),
                None => fallback_spans(p, song, stickers, ctx, sep, strategy, base),
            },
            None => fallback_spans(p, song, stickers, ctx, sep, strategy, base),
        },
        StyledKind::Property(PropertyKind::Song(prop)) => match song {
            Some(s) => match format_spec(s, prop, sep, strategy) {
                Some(v) => Some(SpansView::One(v, style)),
                None => fallback_spans(p, song, stickers, ctx, sep, strategy, base),
            },
            None => fallback_spans(p, song, stickers, ctx, sep, strategy, base),
        },
        StyledKind::Property(PropertyKind::Status(sp)) => match status_text(*sp, ctx.status, style) {
            Some((t, s)) => Some(SpansView::One(t, s)),
            None => fallback_spans(p, song, stickers, ctx, sep, strategy, base),
        },
        StyledKind::Property(PropertyKind::Field(f)) => Some(SpansView::One(field_text(ctx, *f), style)),
        StyledKind::Property(PropertyKind::Widget(WidgetProperty::Volume)) => Some(SpansView::One(ctx.volume_bar@, style)),
        StyledKind::Property(PropertyKind::Widget(WidgetProperty::States { active_style, separator_style })) => Some(
            SpansView::Many(states_spans(ctx.status, style, *active_style, *separator_style)),
        ),
        StyledKind::Property(PropertyKind::Widget(WidgetProperty::ScanStatus)) => match &ctx.scan_status {
            Some(t) => Some(SpansView::One(t@, style)),
            None => None,
        },
        StyledKind::Group(items) => match group_spans(items@, song, stickers, ctx, sep, strategy, base) {
            Some(l) => Some(SpansView::Many(l)),
            None => None,
        },
        StyledKind::Replace { content, replacements } => match property_spans(content, song, stickers, ctx, sep, strategy, base) {
            Some(v) => match key_index(replacement_keys(replacements@), spans_text(v)) {
                Some(i) => {
                    proof {
                        lemma_key_index(replacement_keys(replacements@), spans_text(v));
                    }
                    match property_spans(&replacements@[i].1, song, stickers, ctx, sep, strategy, base) {
                        Some(r) => Some(r),
                        None => fallback_spans(&replacements@[i].1, song, stickers, ctx, sep, strategy, base),
                    }
                },
                None => Some(v),
            },
            None => fallback_spans(p, song, stickers, ctx, sep, strategy, base),
        },
        StyledKind::Truncate { content, length, from_start } => match property_spans(content, song, stickers, ctx, sep, strategy, base) {
            Some(SpansView::One(t, s)) => Some(SpansView::One(
                if *from_start {
                    keep_last(t, *length as nat)
                } else {
                    keep_first(t, *length as nat)
                },
                s,
            )),
            Some(SpansView::Many(l)) => Some(SpansView::Many(
                if *from_start {
                    take_spans_back(l, *length as nat)
                } else {
                    take_spans_front(l, *length as nat)
                },
            )),
            None => fallback_spans(p, song, stickers, ctx, sep, strategy, base),
        },
    }
}

/// The spans of the members of a group, one after the other; `None` as soon
/// as one member resolves to nothing.
pub open spec fn group_spans<S>(
    items: Seq<StyledProperty<S>>,
    song: Option<&Song>,
    stickers: Option<&Stickers>,
    ctx: &SpanContext,
    sep: Seq<char>,
    strategy: TagResolutionStrategy,
    base: S,
) -> Option<Seq<(Seq<char>, S)>>
    decreases items, 1int,
{
    if items.len() == 0 {
        Some(Seq::empty())
    } else {
        match group_spans(items.drop_last(), song, stickers, ctx, sep, strategy, base) {
            Some(init) => match property_spans(&items.last(), song, stickers, ctx, sep, strategy, base) {
                Some(v) => Some(init + as_list(v)),
                None => None,
            },
            None => None,
        }
    }
}

/// Once a member of a group resolves to nothing, so does any longer prefix
/// of the group.
proof fn lemma_group_spans_none<S>(
    items: Seq<StyledProperty<S>>,
    k: int,
    song: Option<&Song>,
    stickers: Option<&Stickers>,
    ctx: &SpanContext,
    sep: Seq<char>,
    strategy: TagResolutionStrategy,
    base: S,
)
    requires
        0 < k <= items.len(),
        property_spans(&items[k - 1], song, stickers, ctx, sep, strategy, base) is None,
    ensures
        group_spans(items, song, stickers, ctx, sep, strategy, base) is None,
    decreases items.len(),
{
    if k == items.len() {
        assert(items.last() == items[k - 1]);
    } else {
        lemma_group_spans_none(items.drop_last(), k, song, stickers, ctx, sep, strategy, base);
        assert(items.drop_last()[k - 1] == items[k - 1]);
    }
}

proof fn lemma_push_view<S>(v: Seq<(String, S)>, x: (String, S))
    ensures
        spans_view(v.push(x)) == spans_view(v).push((x.0@, x.1)),
{
    assert(spans_view(v.push(x)) =~= spans_view(v).push((x.0@, x.1)));
}

proof fn lemma_take_step<S>(l: Seq<(String, S)>, j: int)
    requires
        0 <= j < l.len(),
    ensures
        spans_view(l).take(j + 1) == spans_view(l).take(j).push((l[j].0@, l[j].1)),
{
    assert(spans_view(l).take(j + 1) =~= spans_view(l).take(j).push((l[j].0@, l[j].1)));
}

/// The texts of a list of spans, concatenated.
fn concat_texts<S>(l: &Vec<(String, S)>) -> (r: String)
    ensures
        r@ == list_text(spans_view(l@)),
{
    let mut r = String::new();
    for i in 0..l.len()
        invariant
            r@ == list_text(spans_view(l@).take(i as int)),
    {
        let ghost v = spans_view(l@);
        assert(v.take(i + 1).drop_last() =~= v.take(i as int));
        r.append(l[i].0.as_str());
    }
    assert(spans_view(l@).take(l@.len() as int) =~= spans_view(l@));
    r
}

/// The position of the first replacement keyed `key`.
pub(crate) fn find_key<S>(reps: &Vec<(String, StyledProperty<S>)>, key: &str) -> (r: Option<usize>)
    ensures
        match r {
            Some(i) => key_index(replacement_keys(reps@), key@) == Some(i as int),
            None => key_index(replacement_keys(reps@), key@) is None,
        },
{
    let ghost keys = replacement_keys(reps@);
    proof {
        lemma_key_index(keys, key@);
    }
    for i in 0..reps.len()
        invariant
            keys == replacement_keys(reps@),
            forall|j: int| 0 <= j < i ==> keys[j] != key@,
            match key_index(keys, key@) {
                Some(k) => 0 <= k < keys.len() && keys[k] == key@ && forall|j: int| 0 <= j < k ==> keys[j] != key@,
                None => forall|j: int| 0 <= j < keys.len() ==> keys[j] != key@,
            },
    {
        assert(keys[i as int] == reps@[i as int].0@);
        if str_equals(reps[i].0.as_str(), key) {
            return Some(i);
        }
    }
    None
}

fn keep_text(t: &String, length: usize, from_start: bool) -> (r: String)
    ensures
        r@ == (if from_start {
            keep_last(t@, length as nat)
        } else {
            keep_first(t@, length as nat)
        }),
{
    let chars = to_chars(t.as_str());
    let kept = if from_start {
        truncate_start(&chars, length)
    } else {
        truncate_end(&chars, length)
    };
    chars_to_string(kept.as_slice())
}

/// Keeps the first `length` characters of a list of spans.
fn truncate_spans_end<S: Copy>(l: &Vec<(String, S)>, length: usize) -> (r: Vec<(String, S)>)
    ensures
        spans_view(r@) == take_spans_front(spans_view(l@), length as nat),
{
    let ghost v = spans_view(l@);
    let n = l.len();
    let mut buf: Vec<(String, S)> = Vec::new();
    let mut remaining = length;
    let mut i: usize = 0;
    assert(v.skip(0) =~= v);
    while i < n && remaining > 0
        invariant
            n == l@.len(),
            v == spans_view(l@),
            i <= n,
            spans_view(buf@) + take_spans_front(v.skip(i as int), remaining as nat) == take_spans_front(v, length as nat),
        decreases n - i,
    {
        let ghost rest = v.skip(i as int);
        assert(rest[0] == v[i as int]);
        assert(rest.drop_first() =~= v.skip(i + 1));
        let kept = keep_text(&l[i].0, remaining, false);
        let used = if remaining < l[i].0.unicode_len() {
            remaining
        } else {
            l[i].0.unicode_len()
        };
        let ghost before = spans_view(buf@);
        buf.push((kept, l[i].1));
        assert(spans_view(buf@) =~= before + seq![(keep_first(v[i as int].0, remaining as nat), v[i as int].1)]);
        assert(keep_first(v[i as int].0, remaining as nat).len() == used);
        remaining = remaining - used;
        i = i + 1;
    }
    buf
}

/// Keeps the last `length` characters of a list of spans.
fn truncate_spans_start<S: Copy>(l: &Vec<(String, S)>, length: usize) -> (r: Vec<(String, S)>)
    ensures
        spans_view(r@) == take_spans_back(spans_view(l@), length as nat),
{
    let ghost v = spans_view(l@);
    let n = l.len();
    let mut buf: Vec<(String, S)> = Vec::new();
    let mut remaining = length;
    let mut i: usize = n;
    assert(v.take(n as int) =~= v);
    while i > 0 && remaining > 0
        invariant
            n == l@.len(),
            v == spans_view(l@),
            i <= n,
            take_spans_back(v.take(i as int), remaining as nat) + spans_view(buf@) == take_spans_back(v, length as nat),
        decreases i,
    {
        let ghost front = v.take(i as int);
        assert(front.last() == v[i - 1]);
        assert(front.drop_last() =~= v.take(i - 1));
        let kept = keep_text(&l[i - 1].0, remaining, true);
        let used = if remaining < l[i - 1].0.unicode_len() {
            remaining
        } else {
            l[i - 1].0.unicode_len()
        };
        let ghost before = spans_view(buf@);
        buf.insert(0, (kept, l[i - 1].1));
        assert(spans_view(buf@) =~= seq![(keep_last(v[i - 1].0, remaining as nat), v[i - 1].1)] + before);
        assert(keep_last(v[i - 1].0, remaining as nat).len() == used);
        remaining = remaining - used;
        i = i - 1;
    }
    buf
}

impl<S: Copy> StyledProperty<S> {
    fn fallback(
        &self,
        song: Option<&Song>,
        stickers: Option<&Stickers>,
        ctx: &SpanContext,
        tag_separator: &str,
        strategy: TagResolutionStrategy,
        base: S,
    ) -> (r: Option<Spans<S>>)
        requires
            styled_formattable(self, song),
            ctx.well_formed(),
        ensures
            match r {
                Some(v) => fallback_spans(self, song, stickers, ctx, tag_separator@, strategy, base) == Some(spans_value(v)),
                None => fallback_spans(self, song, stickers, ctx, tag_separator@, strategy, base) is None,
            },
        decreases self, 0int,
    {
        match &self.default {
            Some(d) => d.as_span(song, stickers, ctx, tag_separator, strategy, base),
            None => None,
        }
    }

    /// The spans this format resolves to for `song` (whose stickers are
    /// `stickers`) and the status in `ctx`, each in the style of the format
    /// that made it (`base` for formats without one); fallbacks are used
    /// where a value is missing.
    #[verifier::loop_isolation(false)]
    pub fn as_span(
        &self,
        song: Option<&Song>,
        stickers: Option<&Stickers>,
        ctx: &SpanContext,
        tag_separator: &str,
        strategy: TagResolutionStrategy,
        base: S,
    ) -> (r: Option<Spans<S>>)
        requires
            styled_formattable(self, song),
            ctx.well_formed(),
        ensures
            match r {
                Some(v) => property_spans(self, song, stickers, ctx, tag_separator@, strategy, base) == Some(spans_value(v)),
                None => property_spans(self, song, stickers, ctx, tag_separator@, strategy, base) is None,
            },
        decreases self, 1int,
    {
        let style = match self.style {
            Some(s) => s,
            None => base,
        };
        match &self.kind {
            StyledKind::Text(value) => Some(Spans::One(value.clone(), style)),
            StyledKind::Sticker(key) => {
                let found = match (song, stickers) {
                    (Some(_), Some(st)) => find_sticker(st, key.as_str()),
                    _ => None,
                };
                match found {
                    Some(v) => Some(Spans::One(v, style)),
                    None => self.fallback(song, stickers, ctx, tag_separator, strategy, base),
                }
            },
            StyledKind::Property(PropertyKind::Song(property)) => match song {
                Some(s) => match s.format(property, tag_separator, strategy) {
                    Some(v) => Some(Spans::One(v, style)),
                    None => self.fallback(song, stickers, ctx, tag_separator, strategy, base),
                },
                None => self.fallback(song, stickers, ctx, tag_separator, strategy, base),
            },
            StyledKind::Property(PropertyKind::Status(sp)) => match sp.text(&ctx.status, style) {
                Some((t, s)) => Some(Spans::One(t, s)),
                None => self.fallback(song, stickers, ctx, tag_separator, strategy, base),
            },
            StyledKind::Property(PropertyKind::Field(f)) => {
                let t = match f {
                    StatusField::Duration => format_duration(ctx.duration),
                    StatusField::Elapsed => format_duration(ctx.elapsed),
                    StatusField::Partition => ctx.partition.clone(),
                    StatusField::QueueLength => ctx.queue_length.clone(),
                    StatusField::QueueTimeTotal { separator } => format_queue_time(
                        queue_time_total(&ctx.queue_durations),
                        separator,
                    ),
                    StatusField::QueueTimeRemaining { separator } => format_queue_time(
                        queue_time_remaining(&ctx.queue_durations, ctx.current, ctx.elapsed),
                        separator,
                    ),
                    StatusField::ActiveTab => ctx.active_tab.clone(),
                };
                Some(Spans::One(t, style))
            },
            StyledKind::Property(PropertyKind::Widget(WidgetProperty::Volume)) => Some(Spans::One(ctx.volume_bar.clone(), style)),
            StyledKind::Property(PropertyKind::Widget(WidgetProperty::States { active_style, separator_style })) => Some(
                Spans::Many(states_widget(&ctx.status, style, *active_style, *separator_style)),
            ),
            StyledKind::Property(PropertyKind::Widget(WidgetProperty::ScanStatus)) => match &ctx.scan_status {
                Some(t) => Some(Spans::One(t.clone(), style)),
                None => None,
            },
            StyledKind::Group(group) => {
                let mut buf: Vec<(String, S)> = Vec::new();
                let n = group.len();
                let mut i: usize = 0;
                assert(group@.take(0) =~= Seq::<StyledProperty<S>>::empty());
                while i < n
                    invariant
                        n == group@.len(),
                        i <= n,
                        styled_formattable(self, song),
                        ctx.well_formed(),
                        group_spans(group@.take(i as int), song, stickers, ctx, tag_separator@, strategy, base)
                            == Some(spans_view(buf@)),
                    decreases n - i,
                {
                    assert(group@.take(i + 1).drop_last() =~= group@.take(i as int));
                    assert(group@.take(i + 1).last() == group@[i as int]);
                    assert(decreases_to!(self => group@[i as int]));
                    proof {
                        if styled_shows_position(&group@[i as int]) {
                            lemma_styled_member_shows(group@, i as int);
                        }
                    }
                    match group[i].as_span(song, stickers, ctx, tag_separator, strategy, base) {
                        Some(Spans::One(t, s)) => {
                            let ghost before = spans_view(buf@);
                            buf.push((t, s));
                            assert(spans_view(buf@) =~= before + seq![(t@, s)]);
                        },
                        Some(Spans::Many(l)) => {
                            let ghost before = spans_view(buf@);
                            let mut j: usize = 0;
                            while j < l.len()
                                invariant
                                    j <= l@.len(),
                                    spans_view(buf@) == before + spans_view(l@).take(j as int),
                                decreases l@.len() - j,
                            {
                                let ghost old_buf = buf@;
                                let item = (l[j].0.clone(), l[j].1);
                                buf.push(item);
                                proof {
                                    lemma_push_view(old_buf, item);
                                    lemma_take_step(l@, j as int);
                                    assert(spans_view(buf@) =~= before + spans_view(l@).take(j + 1));
                                }
                                j = j + 1;
                            }
                            assert(spans_view(l@).take(l@.len() as int) =~= spans_view(l@));
                        },
                        None => {
                            proof {
                                lemma_group_spans_none(group@, (i + 1) as int, song, stickers, ctx, tag_separator@, strategy, base);
                            }
                            return None;
                        },
                    }
                    i = i + 1;
                }
                assert(group@.take(n as int) =~= group@);
                Some(Spans::Many(buf))
            },
            StyledKind::Replace { content, replacements } => {
                match content.as_span(song, stickers, ctx, tag_separator, strategy, base) {
                    Some(v) => {
                        let text = match &v {
                            Spans::One(t, _) => t.clone(),
                            Spans::Many(l) => concat_texts(l),
                        };
                        match find_key(replacements, text.as_str()) {
                            Some(i) => {
                                proof {
                                    lemma_key_index(replacement_keys(replacements@), text@);
                                    assert(replacement_keys(replacements@)[i as int] == replacements@[i as int].0@);
                                    if styled_shows_position(&replacements@[i as int].1) {
                                        lemma_styled_replacement_shows(replacements@, i as int);
                                    }
                                }
                                let replacement = &replacements[i].1;
                                match replacement.as_span(song, stickers, ctx, tag_separator, strategy, base) {
                                    Some(r) => Some(r),
                                    None => replacement.fallback(song, stickers, ctx, tag_separator, strategy, base),
                                }
                            },
                            None => Some(v),
                        }
                    },
                    None => self.fallback(song, stickers, ctx, tag_separator, strategy, base),
                }
            },
            StyledKind::Truncate { content, length, from_start } => {
                match content.as_span(song, stickers, ctx, tag_separator, strategy, base) {
                    Some(Spans::One(t, s)) => Some(Spans::One(keep_text(&t, *length, *from_start), s)),
                    Some(Spans::Many(l)) => Some(Spans::Many(
                        if *from_start {
                            truncate_spans_start(&l, *length)
                        } else {
                            truncate_spans_end(&l, *length)
                        },
                    )),
                    None => self.fallback(song, stickers, ctx, tag_separator, strategy, base),
                }
            },
        }
    }
}


/// The spans of a line of formats, one after another; formats that
/// resolve to nothing leave nothing.
pub open spec fn line_spans<S>(
    props: Seq<StyledProperty<S>>,
    song: Option<&Song>,
    stickers: Option<&Stickers>,
    ctx: &SpanContext,
    tag_separator: Seq<char>,
    strategy: TagResolutionStrategy,
    base: S,
) -> Seq<(Seq<char>, S)>
    decreases props.len(),
{
    if props.len() == 0 {
        Seq::empty()
    } else {
        line_spans(props.drop_last(), song, stickers, ctx, tag_separator, strategy, base) + match property_spans(
            &props.last(),
            song,
            stickers,
            ctx,
            tag_separator,
            strategy,
            base,
        ) {
            Some(v) => as_list(v),
            None => Seq::empty(),
        }
    }
}

/// The line a property pane shows: the spans of each of its formats, in
/// order, for `song` and the status in `ctx`.
pub fn property_line<S: Copy>(
    props: &Vec<StyledProperty<S>>,
    song: Option<&Song>,
    stickers: Option<&Stickers>,
    ctx: &SpanContext,
    tag_separator: &str,
    strategy: TagResolutionStrategy,
    base: S,
) -> (r: Vec<(String, S)>)
    requires
        forall|i: int| 0 <= i < props@.len() ==> styled_formattable(#[trigger] &props@[i], song),
        ctx.well_formed(),
    ensures
        spans_view(r@) == line_spans(props@, song, stickers, ctx, tag_separator@, strategy, base),
{
    let mut r: Vec<(String, S)> = Vec::new();
    for i in 0..props.len()
        invariant
            forall|i: int| 0 <= i < props@.len() ==> styled_formattable(#[trigger] &props@[i], song),
            ctx.well_formed(),
            spans_view(r@) == line_spans(props@.subrange(0, i as int), song, stickers, ctx, tag_separator@, strategy, base),
    {
        let ghost before = r@;
        assert(props@.subrange(0, i + 1).drop_last() =~= props@.subrange(0, i as int));
        match props[i].as_span(song, stickers, ctx, tag_separator, strategy, base) {
            Some(Spans::One(t, st)) => {
                r.push((t, st));
                assert(spans_view(r@) =~= spans_view(before) + seq![(t@, st)]);
            },
            Some(Spans::Many(v)) => {
                let mut v = v;
                let ghost vv = v@;
                r.append(&mut v);
                assert(spans_view(r@) =~= spans_view(before) + spans_view(vv));
            },
            None => {
                assert(spans_view(r@) =~= spans_view(before) + Seq::<(Seq<char>, S)>::empty());
            },
        }
    }
    assert(props@.subrange(0, props@.len() as int) =~= props@);
    r
}


/// The lengths of the queue's songs, and the place of the song with id
/// `current_id` (the first one with it), as the context of the formats
/// holds them.
pub fn queue_timing(queue: &Vec<Song>, current_id: Option<u32>) -> (r: (Vec<Option<u64>>, Option<usize>))
    ensures
        r.0@.len() == queue@.len(),
        forall|i: int| 0 <= i < queue@.len() ==> #[trigger] r.0@[i] == queue@[i].duration,
        match current_id {
            None => r.1 is None,
            Some(id) => match r.1 {
                Some(i) => i < queue@.len() && queue@[i as int].id == id && forall|j: int|
                    0 <= j < i ==> (#[trigger] queue@[j]).id != id,
                None => forall|j: int| 0 <= j < queue@.len() ==> (#[trigger] queue@[j]).id != id,
            },
        },
{
    let mut durations: Vec<Option<u64>> = Vec::new();
    let mut found: Option<usize> = None;
    for i in 0..queue.len()
        invariant
            durations@.len() == i,
            forall|k: int| 0 <= k < i ==> #[trigger] durations@[k] == queue@[k].duration,
            match current_id {
                None => found is None,
                Some(id) => match found {
                    Some(f) => f < i && queue@[f as int].id == id && forall|j: int|
                        0 <= j < f ==> (#[trigger] queue@[j]).id != id,
                    None => forall|j: int| 0 <= j < i ==> (#[trigger] queue@[j]).id != id,
                },
            },
    {
        durations.push(queue[i].duration);
        match current_id {
            Some(id) => {
                if found.is_none() && queue[i].id == id {
                    found = Some(i);
                }
            },
            None => {},
        }
    }
    (durations, found)
}

} // verus!
