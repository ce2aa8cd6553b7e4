//! The logs pane: the last log messages, wrapped to the pane's width with
//! continuation lines indented, and whether the view follows new messages.
use vstd::prelude::*;

use crate::geometry::{Position, Rect};
use crate::lyrics::wrapped;
use crate::search::MouseKind;
use crate::screens::search::{KeyResult, ListMove};
use crate::screens::CommonAction;
use crate::text::{is_white_space, trailing_whitespace, views};

verus! {

/// How many messages the pane keeps.
pub const LOG_CAPACITY: usize = 1000;

/// How far continuation lines are indented.
pub const INDENT_LEN: usize = 4;

/// What `String::from_utf8_lossy` makes of some bytes: their UTF-8 text,
/// with each invalid sequence replaced by U+FFFD.
pub uninterp spec fn lossy_text(bytes: Seq<u8>) -> Seq<char>;

/// Trusted: `String::from_utf8_lossy`, taken as an owned string; its
/// result depends on the bytes alone.
#[verifier::external_body]
fn utf8_lossy(bytes: &Vec<u8>) -> (r: String)
    ensures
        r@ == lossy_text(bytes@),
{
    String::from_utf8_lossy(bytes.as_slice()).into_owned()
}

/// What `textwrap::indent` makes of a text and a prefix.
pub uninterp spec fn indented(text: Seq<char>, prefix: Seq<char>) -> Seq<char>;

/// Trusted: `textwrap::indent`. Its source puts the prefix before each
/// line; a line that is only whitespace gets the prefix without its
/// trailing whitespace, and an empty text stays empty. For a text of one
/// line (no line feed) that is what the second clause says.
#[verifier::external_body]
fn indent_text(text: &str, prefix: &str) -> (r: String)
    ensures
        r@ == indented(text@, prefix@),
        (forall|i: int| 0 <= i < text@.len() ==> text@[i] != '\n') ==> r@ == if text@.len() == 0 {
            text@
        } else if forall|i: int| 0 <= i < text@.len() ==> is_white_space(#[trigger] text@[i]) {
            prefix@.take(prefix@.len() - trailing_whitespace(prefix@)) + text@
        } else {
            prefix@ + text@
        },
{
    textwrap::indent(text, prefix)
}

/// The rows of one message: its wrapped lines, all but the first indented.
pub open spec fn message_rows(lines: Seq<Seq<char>>) -> Seq<Seq<char>> {
    Seq::new(
        lines.len(),
        |i: int|
            if i == 0 {
                lines[0]
            } else {
                indented(lines[i], "    "@)
            },
    )
}

/// The rows of the messages, one message after the other, wrapped to
/// `width` columns.
pub open spec fn log_rows(logs: Seq<Vec<u8>>, width: usize) -> Seq<Seq<char>>
    decreases logs.len(),
{
    if logs.len() == 0 {
        Seq::empty()
    } else {
        log_rows(logs.drop_last(), width) + message_rows(wrapped(lossy_text(logs.last()@), width))
    }
}

/// The width messages are wrapped to in an area `area_width` columns wide:
/// room is left for the indentation and the borders.
pub open spec fn wrap_width(area_width: u16) -> usize {
    if area_width as int > INDENT_LEN + 3 {
        (area_width - INDENT_LEN - 3) as usize
    } else {
        0
    }
}

/// The last `n` elements of `s` (all of them when it is shorter).
pub open spec fn last_n<T>(s: Seq<T>, n: nat) -> Seq<T> {
    if s.len() > n {
        s.skip(s.len() - n)
    } else {
        s
    }
}

/// The logs pane's state.
pub struct LogsPane {
    pub logs: Vec<Vec<u8>>,
    pub scroll_enabled: bool,
    pub should_scroll_to_last: bool,
}

impl LogsPane {
    /// An empty pane that follows new messages.
    pub fn new() -> (r: LogsPane)
        ensures
            r.logs@.len() == 0,
            r.scroll_enabled,
            !r.should_scroll_to_last,
    {
        LogsPane { logs: Vec::new(), scroll_enabled: true, should_scroll_to_last: false }
    }

    /// Adds a message, dropping the oldest beyond the capacity, and asks to
    /// scroll to it.
    pub fn add_log(&mut self, message: Vec<u8>)
        ensures
            final(self).logs@ == last_n(old(self).logs@.push(message), LOG_CAPACITY as nat),
            final(self).should_scroll_to_last,
            final(self).scroll_enabled == old(self).scroll_enabled,
    {
        let ghost all = self.logs@.push(message);
        self.logs.push(message);
        while self.logs.len() > LOG_CAPACITY
            invariant
                last_n(self.logs@, LOG_CAPACITY as nat) == last_n(all, LOG_CAPACITY as nat),
                self.scroll_enabled == old(self).scroll_enabled,
            decreases self.logs@.len(),
        {
            let ghost before = self.logs@;
            self.logs.remove(0);
            assert(self.logs@ =~= before.skip(1));
            assert(last_n(self.logs@, LOG_CAPACITY as nat) =~= last_n(before, LOG_CAPACITY as nat));
        }
        assert(last_n(self.logs@, LOG_CAPACITY as nat) =~= self.logs@);
        self.should_scroll_to_last = true;
    }

    /// Forgets every message.
    pub fn clear(&mut self)
        ensures
            final(self).logs@.len() == 0,
            final(self).scroll_enabled == old(self).scroll_enabled,
            final(self).should_scroll_to_last == old(self).should_scroll_to_last,
    {
        self.logs = Vec::new();
    }

    /// Turns following new messages on or off.
    pub fn toggle_scroll(&mut self)
        ensures
            final(self).scroll_enabled == !old(self).scroll_enabled,
            final(self).logs@ == old(self).logs@,
            final(self).should_scroll_to_last == old(self).should_scroll_to_last,
    {
        self.scroll_enabled = !self.scroll_enabled;
    }

    /// Whether drawing should put the cursor on the last row: when the
    /// view follows messages and nothing is selected yet or a message came
    /// since; the request is then spent.
    pub fn take_scroll_to_last(&mut self, nothing_selected: bool) -> (r: bool)
        ensures
            r == (old(self).scroll_enabled && (nothing_selected || old(self).should_scroll_to_last)),
            final(self).should_scroll_to_last == (old(self).should_scroll_to_last && !r),
            final(self).scroll_enabled == old(self).scroll_enabled,
            final(self).logs@ == old(self).logs@,
    {
        if self.scroll_enabled && (nothing_selected || self.should_scroll_to_last) {
            self.should_scroll_to_last = false;
            true
        } else {
            false
        }
    }

    /// The rows the pane shows in an area `area_width` columns wide.
    pub fn rows(&self, area_width: u16) -> (r: Vec<String>)
        ensures
            views(r@) == log_rows(self.logs@, wrap_width(area_width)),
    {
        let width: usize = if area_width as usize > INDENT_LEN + 3 {
            area_width as usize - INDENT_LEN - 3
        } else {
            0
        };
        let mut r: Vec<String> = Vec::new();
        for k in 0..self.logs.len()
            invariant
                width == wrap_width(area_width),
                views(r@) == log_rows(self.logs@.take(k as int), width),
        {
            assert(self.logs@.take(k + 1).drop_last() =~= self.logs@.take(k as int));
            assert(self.logs@.take(k + 1).last() == self.logs@[k as int]);
            let text = utf8_lossy(&self.logs[k]);
            let lines = crate::lyrics::wrap_text(text.as_str(), width);
            let ghost before = views(r@);
            let ghost lv = views(lines@);
            for j in 0..lines.len()
                invariant
                    lv == views(lines@),
                    views(r@) == before + message_rows(lv).take(j as int),
            {
                let row = if j == 0 {
                    lines[0].clone()
                } else {
                    indent_text(lines[j].as_str(), "    ")
                };
                let ghost old_r = r@;
                let ghost row_view = row@;
                r.push(row);
                proof {
                    reveal_strlit("    ");
                    assert(views(r@) =~= views(old_r).push(row_view));
                    assert(message_rows(lv).take(j + 1) =~= message_rows(lv).take(j as int).push(row_view));
                }
            }
            assert(message_rows(lv).take(lines@.len() as int) =~= message_rows(lv));
        }
        assert(self.logs@.take(self.logs@.len() as int) =~= self.logs@);
        r
    }
}

/// The logs pane's own actions.
#[derive(Clone, Copy, PartialEq, Eq, Structural, Debug)]
pub enum LogsAction {
    Clear,
    ToggleScroll,
}

/// The cursor movements the logs take from navigation actions.
pub open spec fn logs_move_of(a: CommonAction) -> Option<ListMove> {
    match a {
        CommonAction::DownHalf => Some(ListMove::NextHalf),
        CommonAction::UpHalf => Some(ListMove::PrevHalf),
        CommonAction::Up => Some(ListMove::Prev),
        CommonAction::Down => Some(ListMove::Next),
        CommonAction::Bottom => Some(ListMove::Last),
        CommonAction::Top => Some(ListMove::First),
        _ => None,
    }
}

fn move_of(a: CommonAction) -> (r: Option<ListMove>)
    ensures
        r == logs_move_of(a),
{
    match a {
        CommonAction::DownHalf => Some(ListMove::NextHalf),
        CommonAction::UpHalf => Some(ListMove::PrevHalf),
        CommonAction::Up => Some(ListMove::Prev),
        CommonAction::Down => Some(ListMove::Next),
        CommonAction::Bottom => Some(ListMove::Last),
        CommonAction::Top => Some(ListMove::First),
        _ => None,
    }
}

impl LogsPane {
    /// Handles a key of the logs pane: its own actions come first (clearing
    /// the logs and drawing again, or turning following on or off), then
    /// the navigation that moves the cursor; other keys do nothing.
    pub fn handle_key(&mut self, own: Option<LogsAction>, action: Option<CommonAction>) -> (r: (KeyResult, Option<ListMove>))
        ensures
            match own {
                Some(LogsAction::Clear) => final(self).logs@.len() == 0 && final(self).scroll_enabled == old(self).scroll_enabled
                    && r == (KeyResult::Render, None::<ListMove>),
                Some(LogsAction::ToggleScroll) => final(self).logs@ == old(self).logs@ && final(self).scroll_enabled == !old(self).scroll_enabled
                    && r == (KeyResult::SkipRender, None::<ListMove>),
                None => final(self).logs@ == old(self).logs@ && final(self).scroll_enabled == old(self).scroll_enabled && match action {
                    Some(a) => match logs_move_of(a) {
                        Some(m) => r == (KeyResult::Render, Some(m)),
                        None => r == (KeyResult::SkipRender, None::<ListMove>),
                    },
                    None => r == (KeyResult::NotHandled, None::<ListMove>),
                },
            },
            final(self).should_scroll_to_last == old(self).should_scroll_to_last,
    {
        match own {
            Some(LogsAction::Clear) => {
                self.clear();
                (KeyResult::Render, None)
            },
            Some(LogsAction::ToggleScroll) => {
                self.toggle_scroll();
                (KeyResult::SkipRender, None)
            },
            None => match action {
                Some(a) => match move_of(a) {
                    Some(m) => (KeyResult::Render, Some(m)),
                    None => (KeyResult::SkipRender, None),
                },
                None => (KeyResult::NotHandled, None),
            },
        }
    }
}


/// The cursor movement a pointer event over the logs drawn in `area`
/// makes: inside it, scrolling up moves the cursor up and scrolling down
/// moves it down, neither wrapping around, and the logs are drawn again;
/// anything else moves nothing.
pub fn mouse_move(kind: MouseKind, pos: Position, area: Rect) -> (r: Option<ListMove>)
    ensures
        r == (if area.contains_spec(pos) && kind == MouseKind::ScrollUp {
            Some(ListMove::PrevStop)
        } else if area.contains_spec(pos) && kind == MouseKind::ScrollDown {
            Some(ListMove::NextStop)
        } else {
            None
        }),
{
    if !area.contains(pos) {
        return None;
    }
    match kind {
        MouseKind::ScrollUp => Some(ListMove::PrevStop),
        MouseKind::ScrollDown => Some(ListMove::NextStop),
        _ => None,
    }
}

} // verus!
