//! The player's status as formats show it: which label and style a status
//! property takes, the state widget, and the queue's total and remaining
//! time.
use vstd::prelude::*;

use crate::song::{duration_text, format_duration};
use crate::text::{chars_to_string, decimal, decimal_chars, join_strings, joined, views};

verus! {

/// Whether the player plays, is stopped or paused.
#[derive(Clone, Copy, PartialEq, Eq, Structural, Debug)]
pub enum PlayState {
    Play,
    Stop,
    Pause,
}

/// A switch that may also be on for one song only.
#[derive(Clone, Copy, PartialEq, Eq, Structural, Debug)]
pub enum OnOffOneshot {
    On,
    Off,
    Oneshot,
}

/// What the formats read of the player's status.
#[derive(Clone, Copy, PartialEq, Eq, Structural, Debug)]
pub struct Status {
    pub state: PlayState,
    pub repeat: bool,
    pub random: bool,
    pub consume: OnOffOneshot,
    pub single: OnOffOneshot,
    pub volume: u8,
    /// Kilobits per second, when the daemon reports it.
    pub bitrate: Option<u32>,
    /// Seconds of crossfade, when set.
    pub xfade: Option<u32>,
}

/// A property of the player's status, with the labels and the styles (of
/// type `S`) it is shown with; a style left out takes the format's own.
pub enum StatusProperty<S> {
    State {
        playing_label: String,
        paused_label: String,
        stopped_label: String,
        playing_style: Option<S>,
        paused_style: Option<S>,
        stopped_style: Option<S>,
    },
    Repeat { on_label: String, off_label: String, on_style: Option<S>, off_style: Option<S> },
    Random { on_label: String, off_label: String, on_style: Option<S>, off_style: Option<S> },
    Consume {
        on_label: String,
        off_label: String,
        oneshot_label: String,
        on_style: Option<S>,
        off_style: Option<S>,
        oneshot_style: Option<S>,
    },
    Single {
        on_label: String,
        off_label: String,
        oneshot_label: String,
        on_style: Option<S>,
        off_style: Option<S>,
        oneshot_style: Option<S>,
    },
    Volume,
    Bitrate,
    Crossfade,
}

/// A style, or `fallback` when there is none.
pub open spec fn style_or<S>(s: Option<S>, fallback: S) -> S {
    match s {
        Some(x) => x,
        None => fallback,
    }
}

/// The label and style a status property shows for `status`; `None` when
/// the status lacks the value (no bitrate, no crossfade), so that the
/// format's fallback is used.
pub open spec fn status_text<S>(prop: StatusProperty<S>, status: Status, style: S) -> Option<
    (Seq<char>, S),
> {
    match prop {
        StatusProperty::State {
            playing_label,
            paused_label,
            stopped_label,
            playing_style,
            paused_style,
            stopped_style,
        } => Some(
            match status.state {
                PlayState::Play => (playing_label@, style_or(playing_style, style)),
                PlayState::Stop => (stopped_label@, style_or(stopped_style, style)),
                PlayState::Pause => (paused_label@, style_or(paused_style, style)),
            },
        ),
        StatusProperty::Repeat { on_label, off_label, on_style, off_style } => Some(
            if status.repeat {
                (on_label@, style_or(on_style, style))
            } else {
                (off_label@, style_or(off_style, style))
            },
        ),
        StatusProperty::Random { on_label, off_label, on_style, off_style } => Some(
            if status.random {
                (on_label@, style_or(on_style, style))
            } else {
                (off_label@, style_or(off_style, style))
            },
        ),
        StatusProperty::Consume {
            on_label,
            off_label,
            oneshot_label,
            on_style,
            off_style,
            oneshot_style,
        } => Some(
            match status.consume {
                OnOffOneshot::On => (on_label@, style_or(on_style, style)),
                OnOffOneshot::Off => (off_label@, style_or(off_style, style)),
                OnOffOneshot::Oneshot => (oneshot_label@, style_or(oneshot_style, style)),
            },
        ),
        StatusProperty::Single {
            on_label,
            off_label,
            oneshot_label,
            on_style,
            off_style,
            oneshot_style,
        } => Some(
            match status.single {
                OnOffOneshot::On => (on_label@, style_or(on_style, style)),
                OnOffOneshot::Off => (off_label@, style_or(off_style, style)),
                OnOffOneshot::Oneshot => (oneshot_label@, style_or(oneshot_style, style)),
            },
        ),
        StatusProperty::Volume => Some((decimal(status.volume as nat), style)),
        StatusProperty::Bitrate => match status.bitrate {
            Some(b) => Some((decimal(b as nat), style)),
            None => None,
        },
        StatusProperty::Crossfade => match status.xfade {
            Some(x) => Some((decimal(x as nat), style)),
            None => None,
        },
    }
}

fn pick<S: Copy>(label: &String, chosen: Option<S>, style: S) -> (r: (String, S))
    ensures
        r.0@ == label@,
        r.1 == style_or(chosen, style),
{
    let s = match chosen {
        Some(x) => x,
        None => style,
    };
    (label.clone(), s)
}

fn number_text(n: u64) -> (r: String)
    ensures
        r@ == decimal(n as nat),
{
    let c = decimal_chars(n);
    chars_to_string(c.as_slice())
}

impl<S: Copy> StatusProperty<S> {
    /// The label and style this property shows for `status`, the format's
    /// own style being `style`.
    pub fn text(&self, status: &Status, style: S) -> (r: Option<(String, S)>)
        ensures
            match r {
                Some(p) => status_text(*self, *status, style) == Some((p.0@, p.1)),
                None => status_text(*self, *status, style) is None,
            },
    {
        match self {
            StatusProperty::State {
                playing_label,
                paused_label,
                stopped_label,
                playing_style,
                paused_style,
                stopped_style,
            } => Some(
                match status.state {
                    PlayState::Play => pick(playing_label, *playing_style, style),
                    PlayState::Stop => pick(stopped_label, *stopped_style, style),
                    PlayState::Pause => pick(paused_label, *paused_style, style),
                },
            ),
            StatusProperty::Repeat { on_label, off_label, on_style, off_style } => Some(
                if status.repeat {
                    pick(on_label, *on_style, style)
                } else {
                    pick(off_label, *off_style, style)
                },
            ),
            StatusProperty::Random { on_label, off_label, on_style, off_style } => Some(
                if status.random {
                    pick(on_label, *on_style, style)
                } else {
                    pick(off_label, *off_style, style)
                },
            ),
            StatusProperty::Consume {
                on_label,
                off_label,
                oneshot_label,
                on_style,
                off_style,
                oneshot_style,
            } => Some(
                match status.consume {
                    OnOffOneshot::On => pick(on_label, *on_style, style),
                    OnOffOneshot::Off => pick(off_label, *off_style, style),
                    OnOffOneshot::Oneshot => pick(oneshot_label, *oneshot_style, style),
                },
            ),
            StatusProperty::Single {
                on_label,
                off_label,
                oneshot_label,
                on_style,
                off_style,
                oneshot_style,
            } => Some(
                match status.single {
                    OnOffOneshot::On => pick(on_label, *on_style, style),
                    OnOffOneshot::Off => pick(off_label, *off_style, style),
                    OnOffOneshot::Oneshot => pick(oneshot_label, *oneshot_style, style),
                },
            ),
            StatusProperty::Volume => Some((number_text(status.volume as u64), style)),
            StatusProperty::Bitrate => match status.bitrate {
                Some(b) => Some((number_text(b as u64), style)),
                None => None,
            },
            StatusProperty::Crossfade => match status.xfade {
                Some(x) => Some((number_text(x as u64), style)),
                None => None,
            },
        }
    }
}

/// The spans of the states widget: repeat, random, consume and single,
/// separated by slashes; each in the active style when on (or on for one
/// song, then labelled as such), in the format's style otherwise.
pub open spec fn states_spans<S>(status: Status, style: S, active: S, separator: S) -> Seq<
    (Seq<char>, S),
> {
    seq![
        ("Repeat"@, if status.repeat {
            active
        } else {
            style
        }),
        (" / "@, separator),
        ("Random"@, if status.random {
            active
        } else {
            style
        }),
        (" / "@, separator),
        match status.consume {
            OnOffOneshot::On => ("Consume"@, active),
            OnOffOneshot::Off => ("Consume"@, style),
            OnOffOneshot::Oneshot => ("Oneshot(C)"@, active),
        },
        (" / "@, separator),
        match status.single {
            OnOffOneshot::On => ("Single"@, active),
            OnOffOneshot::Off => ("Single"@, style),
            OnOffOneshot::Oneshot => ("Oneshot(S)"@, active),
        },
    ]
}

/// The plain values of a list of spans.
pub open spec fn spans_view<S>(v: Seq<(String, S)>) -> Seq<(Seq<char>, S)> {
    v.map_values(|p: (String, S)| (p.0@, p.1))
}

/// The spans of the states widget.
pub fn states_widget<S: Copy>(status: &Status, style: S, active: S, separator: S) -> (r: Vec<
    (String, S),
>)
    ensures
        spans_view(r@) == states_spans(*status, style, active, separator),
{
    let on = |b: bool| -> (r: S)
        ensures
            r == (if b {
                active
            } else {
                style
            }),
        {
            if b {
                active
            } else {
                style
            }
        };
    let consume = match status.consume {
        OnOffOneshot::On => (String::from_str("Consume"), active),
        OnOffOneshot::Off => (String::from_str("Consume"), style),
        OnOffOneshot::Oneshot => (String::from_str("Oneshot(C)"), active),
    };
    let single = match status.single {
        OnOffOneshot::On => (String::from_str("Single"), active),
        OnOffOneshot::Off => (String::from_str("Single"), style),
        OnOffOneshot::Oneshot => (String::from_str("Oneshot(S)"), active),
    };
    let r = vec![
        (String::from_str("Repeat"), on(status.repeat)),
        (String::from_str(" / "), separator),
        (String::from_str("Random"), on(status.random)),
        (String::from_str(" / "), separator),
        consume,
        (String::from_str(" / "), separator),
        single,
    ];
    assert(spans_view(r@) =~= states_spans(*status, style, active, separator));
    r
}

/// The total of the known song lengths.
pub open spec fn total_seconds(durations: Seq<Option<u64>>) -> nat
    decreases durations.len(),
{
    if durations.len() == 0 {
        0
    } else {
        total_seconds(durations.drop_last()) + match durations.last() {
            Some(d) => d as nat,
            None => 0,
        }
    }
}

proof fn lemma_total_seconds_monotone(durations: Seq<Option<u64>>, k: int)
    requires
        0 <= k <= durations.len(),
    ensures
        total_seconds(durations.take(k)) <= total_seconds(durations),
    decreases durations.len() - k,
{
    if k < durations.len() {
        lemma_total_seconds_monotone(durations, k + 1);
        assert(durations.take(k + 1).drop_last() =~= durations.take(k));
    } else {
        assert(durations.take(k) =~= durations);
    }
}

/// The total length of the songs of the queue whose length is known, in
/// seconds.
pub fn queue_time_total(durations: &Vec<Option<u64>>) -> (r: u64)
    requires
        total_seconds(durations@) <= u64::MAX,
    ensures
        r == total_seconds(durations@),
{
    let mut sum: u64 = 0;
    for k in 0..durations.len()
        invariant
            sum == total_seconds(durations@.take(k as int)),
            total_seconds(durations@) <= u64::MAX,
    {
        assert(durations@.take(k + 1).drop_last() =~= durations@.take(k as int));
        proof {
            lemma_total_seconds_monotone(durations@, k + 1);
        }
        match durations[k] {
            Some(d) => {
                sum = sum + d;
            },
            None => {},
        }
    }
    assert(durations@.take(durations@.len() as int) =~= durations@);
    sum
}

/// The time left in the queue, in seconds: the lengths of the current song
/// and of the songs after it, less the time played of the current song
/// when its length is known (and no less than nothing); nothing when no
/// song is current.
pub open spec fn remaining_seconds(durations: Seq<Option<u64>>, current: Option<usize>, elapsed: nat) -> nat {
    match current {
        None => 0,
        Some(i) => {
            let total = total_seconds(durations.skip(i as int));
            if durations[i as int] is Some {
                if total >= elapsed {
                    (total - elapsed) as nat
                } else {
                    0
                }
            } else {
                total
            }
        },
    }
}

/// The time left in the queue from the current song on, in seconds.
pub fn queue_time_remaining(durations: &Vec<Option<u64>>, current: Option<usize>, elapsed: u64) -> (r: u64)
    requires
        current matches Some(i) ==> i < durations@.len(),
        total_seconds(durations@) <= u64::MAX,
    ensures
        r == remaining_seconds(durations@, current, elapsed as nat),
{
    let i = match current {
        None => {
            return 0;
        },
        Some(i) => i,
    };
    let mut rest: Vec<Option<u64>> = Vec::new();
    for k in i..durations.len()
        invariant
            i <= durations@.len(),
            rest@ == durations@.subrange(i as int, k as int),
    {
        rest.push(durations[k]);
        assert(rest@ =~= durations@.subrange(i as int, k + 1));
    }
    assert(rest@ =~= durations@.skip(i as int));
    proof {
        lemma_total_seconds_suffix(durations@, i as int);
    }
    let total = queue_time_total(&rest);
    match durations[i] {
        Some(_) => total.saturating_sub(elapsed),
        None => total,
    }
}

/// The lengths of a suffix add up to no more than all of them.
proof fn lemma_total_seconds_suffix(durations: Seq<Option<u64>>, i: int)
    requires
        0 <= i <= durations.len(),
    ensures
        total_seconds(durations.skip(i)) <= total_seconds(durations),
    decreases durations.len(),
{
    if durations.len() > 0 && i < durations.len() {
        lemma_total_seconds_suffix(durations.drop_last(), i);
        assert(durations.skip(i).drop_last() =~= durations.drop_last().skip(i));
    } else if i == durations.len() {
        assert(durations.skip(i) =~= Seq::<Option<u64>>::empty());
    }
}


/// A length of time spelled out in units, each part followed by its unit:
/// the hours, minutes and seconds that are not zero, or `0s` for no time.
pub open spec fn verbose_parts(secs: nat) -> Seq<Seq<char>> {
    let h = secs / 3600;
    let m = (secs % 3600) / 60;
    let s = secs % 60;
    (if h > 0 {
        seq![decimal(h) + seq!['h']]
    } else {
        Seq::empty()
    }) + (if m > 0 {
        seq![decimal(m) + seq!['m']]
    } else {
        Seq::empty()
    }) + (if s > 0 || secs == 0 {
        seq![decimal(s) + seq!['s']]
    } else {
        Seq::empty()
    })
}

/// How a queue time is shown: as `m:ss` without a separator, or spelled
/// out in units joined by the separator.
pub open spec fn queue_time_text(secs: nat, separator: Option<Seq<char>>) -> Seq<char> {
    match separator {
        None => duration_text(secs),
        Some(sep) => joined(verbose_parts(secs), sep),
    }
}

/// The view of an optional text.
pub open spec fn opt_text(s: Option<String>) -> Option<Seq<char>> {
    match s {
        Some(t) => Some(t@),
        None => None,
    }
}

fn unit_part(v: u64, unit: char) -> (r: String)
    ensures
        r@ == decimal(v as nat) + seq![unit],
{
    let mut c = decimal_chars(v);
    c.push(unit);
    chars_to_string(c.as_slice())
}

/// Formats a queue time of `secs` seconds.
pub fn format_queue_time(secs: u64, separator: &Option<String>) -> (r: String)
    ensures
        r@ == queue_time_text(secs as nat, opt_text(*separator)),
{
    match separator {
        None => format_duration(secs),
        Some(sep) => {
            let h = secs / 3600;
            let m = (secs % 3600) / 60;
            let s = secs % 60;
            let mut parts: Vec<String> = Vec::new();
            if h > 0 {
                parts.push(unit_part(h, 'h'));
            }
            if m > 0 {
                parts.push(unit_part(m, 'm'));
            }
            if s > 0 || secs == 0 {
                parts.push(unit_part(s, 's'));
            }
            assert(views(parts@) =~= verbose_parts(secs as nat));
            join_strings(&parts, sep.as_str())
        },
    }
}

} // verus!
