//! The lyrics pane: which line of a synchronized lyrics file is being sung,
//! how the lines are laid out around it (the current line in the middle
//! row, wrapped to the pane's width), and when the next line is due.
use vstd::prelude::*;

use crate::text::views;

verus! {

/// A line of synchronized lyrics: when it starts (in milliseconds, the
/// configured offset applied), that time as the pane shows it, and the
/// words.
pub struct LyricLine {
    pub time_ms: u64,
    pub stamp: String,
    pub content: String,
}

/// What `textwrap::wrap` makes of a text at a width: its lines, each
/// fitting the width where the words allow.
pub uninterp spec fn wrapped(text: Seq<char>, width: usize) -> Seq<Seq<char>>;

/// Trusted: `textwrap::wrap` with default options, each line taken as an
/// owned string; its result depends on the text and the width alone.
#[verifier::external_body]
pub(crate) fn wrap_text(text: &str, width: usize) -> (r: Vec<String>)
    ensures
        views(r@) == wrapped(text@, width),
{
    textwrap::wrap(text, width).into_iter().map(|line| line.into_owned()).collect()
}

/// Whether the line has started at `elapsed`.
pub open spec fn started(l: LyricLine, elapsed: u64) -> bool {
    l.time_ms <= elapsed
}

/// The line being sung at `elapsed` and whether any line has started: of
/// the lines that have started, the one that started last (the first such
/// on a tie); line 0, not reached, when none has.
pub fn current_line(lines: &Vec<LyricLine>, elapsed: u64) -> (r: (usize, bool))
    ensures
        r.1 ==> {
            &&& r.0 < lines@.len()
            &&& started(lines@[r.0 as int], elapsed)
            &&& forall|j: int| 0 <= j < lines@.len() && started(#[trigger] lines@[j], elapsed) ==> lines@[j].time_ms <= lines@[r.0 as int].time_ms
            &&& forall|j: int| 0 <= j < r.0 && started(#[trigger] lines@[j], elapsed) ==> lines@[j].time_ms < lines@[r.0 as int].time_ms
        },
        !r.1 ==> r.0 == 0 && forall|j: int| 0 <= j < lines@.len() ==> !started(#[trigger] lines@[j], elapsed),
{
    let mut best: usize = 0;
    let mut found = false;
    for i in 0..lines.len()
        invariant
            found ==> {
                &&& best < i
                &&& started(lines@[best as int], elapsed)
                &&& forall|j: int| 0 <= j < i && started(#[trigger] lines@[j], elapsed) ==> lines@[j].time_ms <= lines@[best as int].time_ms
                &&& forall|j: int| 0 <= j < best && started(#[trigger] lines@[j], elapsed) ==> lines@[j].time_ms < lines@[best as int].time_ms
            },
            !found ==> best == 0 && forall|j: int| 0 <= j < i ==> !started(#[trigger] lines@[j], elapsed),
    {
        if lines[i].time_ms <= elapsed && (!found || lines[i].time_ms > lines[best].time_ms) {
            best = i;
            found = true;
        }
    }
    (best, found)
}

/// The text a line is shown with: `[time] words` when time stamps are
/// shown and the line has words, the words alone otherwise.
pub open spec fn shown_text(l: LyricLine, timestamp: bool) -> Seq<char> {
    if timestamp && l.content@.len() > 0 {
        "["@ + l.stamp@ + "] "@ + l.content@
    } else {
        l.content@
    }
}

fn shown(l: &LyricLine, timestamp: bool) -> (r: String)
    ensures
        r@ == shown_text(*l, timestamp),
{
    if timestamp && !l.content.as_str().is_empty() {
        let mut s = String::from_str("[");
        s.append(l.stamp.as_str());
        s.append("] ");
        s.append(l.content.as_str());
        s
    } else {
        l.content.clone()
    }
}

/// The wrapped rows of lines `from..to`, one line after the other.
pub open spec fn rows_of(lines: Seq<LyricLine>, from: int, to: int, width: usize, timestamp: bool) -> Seq<Seq<char>>
    decreases to - from,
{
    if to <= from {
        Seq::empty()
    } else {
        rows_of(lines, from, to - 1, width, timestamp) + wrapped(shown_text(lines[to - 1], timestamp), width)
    }
}

fn wrapped_range(lines: &Vec<LyricLine>, from: usize, to: usize, width: usize, timestamp: bool) -> (r: Vec<String>)
    requires
        from <= to <= lines@.len(),
    ensures
        views(r@) == rows_of(lines@, from as int, to as int, width, timestamp),
{
    let mut r: Vec<String> = Vec::new();
    let mut i = from;
    while i < to
        invariant
            from <= i <= to <= lines@.len(),
            views(r@) == rows_of(lines@, from as int, i as int, width, timestamp),
        decreases to - i,
    {
        let pieces = wrap_text(shown(&lines[i], timestamp).as_str(), width);
        let ghost before = views(r@);
        for k in 0..pieces.len()
            invariant
                views(r@) == before + views(pieces@).take(k as int),
        {
            let ghost old_r = r@;
            let piece = pieces[k].clone();
            r.push(piece);
            proof {
                assert(views(r@) =~= views(old_r).push(piece@));
                assert(views(pieces@).take(k + 1) =~= views(pieces@).take(k as int).push(pieces@[k as int]@));
                assert(views(r@) =~= before + views(pieces@).take(k + 1));
            }
        }
        assert(views(pieces@).take(pieces@.len() as int) =~= views(pieces@));
        i = i + 1;
    }
    r
}

/// A row of the pane: its text, and whether it is drawn highlighted (the
/// line being sung, once a line has started).
pub struct LyricRow {
    pub text: String,
    pub highlighted: bool,
}

/// What row `r` of a pane of `rows` rows shows: `before` (the wrapped rows
/// of the earlier lines) ends just above the middle row; `current` (those
/// of the line being sung) starts at the middle row; `after` (those of the
/// later lines) follows it, though never before the second row.
pub open spec fn row_at(
    before: Seq<Seq<char>>,
    current: Seq<Seq<char>>,
    after: Seq<Seq<char>>,
    rows: int,
    r: int,
    reached: bool,
) -> Option<(Seq<char>, bool)> {
    let middle = rows / 2;
    let placed = if current.len() < rows - middle {
        current.len() as int
    } else {
        rows - middle
    };
    let start = if middle + placed > 1 {
        middle + placed
    } else {
        1
    };
    if r < middle {
        if before.len() >= middle - r {
            Some((before[before.len() - (middle - r)], false))
        } else {
            None
        }
    } else if r < middle + placed {
        Some((current[r - middle], reached))
    } else if start <= r && r - start < after.len() {
        Some((after[r - start], false))
    } else {
        None
    }
}

/// The rows of the pane: for `rows` rows of `width` columns, with the
/// current line `current` (and whether it has started), each row's text
/// and highlight as `row_at` places them; nothing when there are no lines.
pub fn lyric_rows(lines: &Vec<LyricLine>, current: usize, reached: bool, rows: usize, width: usize, timestamp: bool) -> (r:
    Vec<Option<LyricRow>>)
    requires
        current < lines@.len() || lines@.len() == 0,
    ensures
        r@.len() == rows,
        lines@.len() == 0 ==> forall|k: int| 0 <= k < rows ==> r@[k] is None,
        lines@.len() > 0 ==> forall|k: int| 0 <= k < rows ==> {
            let want = row_at(
                rows_of(lines@, 0, current as int, width, timestamp),
                wrapped(shown_text(lines@[current as int], timestamp), width),
                rows_of(lines@, current + 1, lines@.len() as int, width, timestamp),
                rows as int,
                k,
                reached,
            );
            match #[trigger] r@[k] {
                Some(row) => want == Some((row.text@, row.highlighted)),
                None => want is None,
            }
        },
{
    let mut r: Vec<Option<LyricRow>> = Vec::new();
    if lines.len() == 0 {
        for k in 0..rows
            invariant
                r@.len() == k,
                forall|q: int| 0 <= q < k ==> r@[q] is None,
        {
            r.push(None);
        }
        return r;
    }
    let before = wrapped_range(lines, 0, current, width, timestamp);
    let cur = wrap_text(shown(&lines[current], timestamp).as_str(), width);
    let after = wrapped_range(lines, current + 1, lines.len(), width, timestamp);
    let ghost bv = views(before@);
    let ghost cv = views(cur@);
    let ghost av = views(after@);
    let middle = rows / 2;
    let placed = if cur.len() < rows - middle {
        cur.len()
    } else {
        rows - middle
    };
    let start = if middle + placed > 1 {
        middle + placed
    } else {
        1
    };
    for k in 0..rows
        invariant
            r@.len() == k,
            bv == views(before@),
            cv == views(cur@),
            av == views(after@),
            middle == rows / 2,
            placed == (if cv.len() < rows - middle {
                cv.len() as int
            } else {
                rows - middle
            }),
            start == (if middle + placed > 1 {
                middle + placed
            } else {
                1
            }),
            forall|q: int| 0 <= q < k ==> {
                let want = row_at(bv, cv, av, rows as int, q, reached);
                match #[trigger] r@[q] {
                    Some(row) => want == Some((row.text@, row.highlighted)),
                    None => want is None,
                }
            },
    {
        let row = if k < middle {
            if before.len() >= middle - k {
                Some(LyricRow { text: before[before.len() - (middle - k)].clone(), highlighted: false })
            } else {
                None
            }
        } else if k < middle + placed {
            Some(LyricRow { text: cur[k - middle].clone(), highlighted: reached })
        } else if start <= k && k - start < after.len() {
            Some(LyricRow { text: after[k - start].clone(), highlighted: false })
        } else {
            None
        };
        r.push(row);
    }
    r
}

/// The lyrics pane's own state: the line whose start was last scheduled
/// for a redraw.
pub struct LyricsPane {
    pub last_requested_line_idx: usize,
}

impl LyricsPane {
    /// A pane that has scheduled nothing yet.
    pub fn new() -> (r: LyricsPane)
        ensures
            r.last_requested_line_idx == 0,
    {
        LyricsPane { last_requested_line_idx: 0 }
    }

    /// After drawing with `current` as the line being sung: when the next
    /// line exists and was not scheduled yet, remembers it and returns how
    /// long until it starts (none when it already has).
    pub fn schedule_next(&mut self, lines: &Vec<LyricLine>, current: usize, elapsed: u64) -> (r: Option<u64>)
        requires
            current < usize::MAX,
        ensures
            if old(self).last_requested_line_idx != current + 1 && current + 1 < lines@.len() {
                &&& final(self).last_requested_line_idx == current + 1
                &&& r == Some((if lines@[current + 1].time_ms > elapsed {
                    lines@[current + 1].time_ms - elapsed
                } else {
                    0
                }) as u64)
            } else {
                final(self).last_requested_line_idx == old(self).last_requested_line_idx && r is None
            },
    {
        let next = current + 1;
        if self.last_requested_line_idx != next && next < lines.len() {
            self.last_requested_line_idx = next;
            Some(lines[next].time_ms.saturating_sub(elapsed))
        } else {
            None
        }
    }

    /// Forgets what was scheduled (the song or its lyrics changed).
    pub fn reset_schedule(&mut self)
        ensures
            final(self).last_requested_line_idx == 0,
    {
        self.last_requested_line_idx = 0;
    }
}


/// The rows above the middle row show the wrapped rows of the lines before
/// the current one, the last of them right above the middle: one more
/// earlier row at the end of `before` takes the row above the middle and
/// moves every row above it one row up; with no earlier rows, the rows
/// above the middle are empty.
pub proof fn law_rows_above_follow_the_earlier_lines(
    before: Seq<Seq<char>>,
    x: Seq<char>,
    current: Seq<Seq<char>>,
    after: Seq<Seq<char>>,
    rows: int,
    reached: bool,
)
    requires
        rows >= 2,
    ensures
        row_at(before.push(x), current, after, rows, rows / 2 - 1, reached) == Some((x, false)),
        forall|r: int|
            0 < r < rows / 2 ==> #[trigger] row_at(before.push(x), current, after, rows, r - 1, reached) == row_at(
                before,
                current,
                after,
                rows,
                r,
                reached,
            ),
        forall|r: int| 0 <= r < rows / 2 ==> #[trigger] row_at(Seq::empty(), current, after, rows, r, reached) is None,
{
    let b = before.push(x);
    assert(b[b.len() - 1] == x);
    assert forall|r: int| 0 < r < rows / 2 implies #[trigger] row_at(b, current, after, rows, r - 1, reached) == row_at(
        before,
        current,
        after,
        rows,
        r,
        reached,
    ) by {
        let middle = rows / 2;
        if before.len() >= middle - r {
            assert(b[b.len() - (middle - (r - 1))] == before[before.len() - (middle - r)]);
        }
    }
}


/// The middle row shows the first wrapped row of the current line,
/// highlighted once the line has started; when the current line's rows all
/// fit from the middle down, the row right after them shows the first
/// wrapped row of the next lines.
pub proof fn law_current_line_sits_in_the_middle(
    before: Seq<Seq<char>>,
    current: Seq<Seq<char>>,
    after: Seq<Seq<char>>,
    rows: int,
    reached: bool,
)
    requires
        rows >= 2,
        current.len() > 0,
    ensures
        row_at(before, current, after, rows, rows / 2, reached) == Some((current[0], reached)),
        current.len() < rows - rows / 2 && after.len() > 0 ==> row_at(
            before,
            current,
            after,
            rows,
            rows / 2 + current.len(),
            reached,
        ) == Some((after[0], false)),
{
}

} // verus!
