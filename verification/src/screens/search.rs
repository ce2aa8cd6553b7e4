//! The search screen: a column of tag textboxes, a search mode, a case
//! switch and a reset button, beside the list of songs found; which part
//! has the focus, what each key does there, and the query the inputs make.
use vstd::prelude::*;

use super::{filters_view, CommonAction, Filter, Tag};
use crate::search::{filter_kind_of, next_search_mode, FilterKind, SearchMode};
use crate::queue::{all_below, strictly_increasing};
use crate::song::Song;
use crate::text::{chars_to_string, to_chars, views};

verus! {

/// The actions of the search screen (there are none of its own, so no
/// value of the type exists).
pub type SearchActions = core::convert::Infallible;

/// A textbox of the column: its label, the tag it searches and the text
/// typed into it.
pub struct ScreenTextbox {
    pub label: String,
    pub filter_key: Tag,
    pub value: String,
}

/// The focused input: a textbox, one of the two filter inputs (the search
/// mode, then the case switch) or the reset button.
#[derive(Clone, Copy, PartialEq, Eq, Structural, Debug)]
pub enum ScreenFocus {
    Textboxes(usize),
    Filters(usize),
    Buttons(usize),
}

/// What the screen is doing: typing into a textbox, moving in the column
/// of inputs, or browsing the songs found (typing a filter over them or
/// not).
#[derive(Clone, Copy, PartialEq, Eq, Structural, Debug)]
pub enum ScreenPhase {
    TextboxInput,
    Search,
    List { filter_input_on: bool },
}

/// The search screen's own state. The songs found live with the caller,
/// who is told how to move in them.
pub struct SearchScreen {
    pub textboxes: Vec<ScreenTextbox>,
    pub mode: SearchMode,
    pub case_sensitive: bool,
    pub focused: ScreenFocus,
    pub phase: ScreenPhase,
    /// The filter typed over the songs found.
    pub filter: Option<String>,
}

/// The key a screen gets: the navigation action bound to it, if any, and
/// what it types.
pub struct ScreenKey {
    pub action: Option<CommonAction>,
    pub code: KeyCode,
}

/// What a key types.
#[derive(Clone, Copy, PartialEq, Eq, Structural, Debug)]
pub enum KeyCode {
    Char(char),
    Backspace,
    Other,
}

/// Whether the key was used, and whether to draw again.
#[derive(Clone, Copy, PartialEq, Eq, Structural, Debug)]
pub enum KeyResult {
    Render,
    SkipRender,
    NotHandled,
    /// A dialog opens, and is drawn.
    Modal,
}

/// A move of a list's cursor.
#[derive(Clone, Copy, PartialEq, Eq, Structural, Debug)]
pub enum ListMove {
    /// One down, wrapping around as the navigation setting says.
    Next,
    /// One up, wrapping around as the navigation setting says.
    Prev,
    /// One down, never wrapping around.
    NextStop,
    /// One up, never wrapping around.
    PrevStop,
    NextHalf,
    PrevHalf,
    First,
    Last,
    NextMatch,
    PrevMatch,
    /// Mark or unmark the song under the cursor, then move down.
    MarkAndNext,
}

/// What the caller does for the screen.
#[derive(Clone, Copy, PartialEq, Eq, Structural, Debug)]
pub enum ScreenEffect {
    Nothing,
    /// Search again with the screen's query; the songs found replace the
    /// list.
    Search,
    /// Empty the list of songs found.
    ClearResults,
    /// Move in the list.
    List(ListMove),
    /// Enqueue the song under the cursor (its file is what `add_files`
    /// gives with nothing marked).
    AddSelected,
    /// Enqueue the marked songs, one file at a time in the order of their
    /// positions, as `add_files` lists them, stopping at the first failure.
    AddMarked,
}

/// What handling a key leads to; `preview` asks for the preview of the
/// entry under the cursor to be prepared again.
#[derive(Clone, Copy, PartialEq, Eq, Structural, Debug)]
pub struct ScreenOutcome {
    pub result: KeyResult,
    pub effect: ScreenEffect,
    pub preview: bool,
}

/// A query the inputs make: one filter per non-empty textbox, all with the
/// search mode's comparison; a case-sensitive query is an exact find.
pub struct ScreenQuery {
    pub filters: Vec<Filter>,
    pub kind: FilterKind,
    pub case_sensitive: bool,
}

/// The focus is on an input that exists, with `n` textboxes.
pub open spec fn focus_valid(f: ScreenFocus, n: nat) -> bool {
    match f {
        ScreenFocus::Textboxes(i) => i < n,
        ScreenFocus::Filters(i) => i < 2,
        ScreenFocus::Buttons(i) => i < 1,
    }
}

/// The input after `f`, going from the last textbox to the filters, from
/// the last filter to the button, and from the button back to the first
/// textbox.
pub open spec fn next_focus(f: ScreenFocus, n: nat) -> ScreenFocus {
    match f {
        ScreenFocus::Textboxes(i) => if i + 1 == n {
            ScreenFocus::Filters(0)
        } else {
            ScreenFocus::Textboxes((i + 1) as usize)
        },
        ScreenFocus::Filters(i) => if i + 1 == 2 {
            ScreenFocus::Buttons(0)
        } else {
            ScreenFocus::Filters((i + 1) as usize)
        },
        ScreenFocus::Buttons(i) => if i + 1 == 1 {
            ScreenFocus::Textboxes(0)
        } else {
            ScreenFocus::Buttons((i + 1) as usize)
        },
    }
}

/// The input before `f`, the other way round.
pub open spec fn prev_focus(f: ScreenFocus, n: nat) -> ScreenFocus {
    match f {
        ScreenFocus::Textboxes(i) => if i == 0 {
            ScreenFocus::Buttons(0)
        } else {
            ScreenFocus::Textboxes((i - 1) as usize)
        },
        ScreenFocus::Filters(i) => if i == 0 {
            ScreenFocus::Textboxes((n - 1) as usize)
        } else {
            ScreenFocus::Filters((i - 1) as usize)
        },
        ScreenFocus::Buttons(i) => if i == 0 {
            ScreenFocus::Filters(1)
        } else {
            ScreenFocus::Buttons((i - 1) as usize)
        },
    }
}

/// The place of an input in the column, counting from the first textbox.
pub open spec fn focus_index(f: ScreenFocus, n: nat) -> int {
    match f {
        ScreenFocus::Textboxes(i) => i as int,
        ScreenFocus::Filters(i) => n + i,
        ScreenFocus::Buttons(i) => n + 2 + i,
    }
}

/// `f` moved down `k` times.
pub open spec fn advance_focus(f: ScreenFocus, n: nat, k: nat) -> ScreenFocus
    decreases k,
{
    if k == 0 {
        f
    } else {
        next_focus(advance_focus(f, n, (k - 1) as nat), n)
    }
}

/// Moving up undoes moving down, and moving down undoes moving up.
pub proof fn law_screen_prev_undoes_next(f: ScreenFocus, n: nat)
    requires
        0 < n <= usize::MAX,
        focus_valid(f, n),
    ensures
        prev_focus(next_focus(f, n), n) == f,
        next_focus(prev_focus(f, n), n) == f,
        focus_valid(next_focus(f, n), n),
        focus_valid(prev_focus(f, n), n),
{
}

/// Moving down goes through the column in order, coming back to where it
/// started after every input was visited once.
pub proof fn law_screen_focus_cycles(f: ScreenFocus, n: nat, k: nat)
    requires
        0 < n <= usize::MAX,
        focus_valid(f, n),
    ensures
        focus_valid(advance_focus(f, n, k), n),
        focus_index(advance_focus(f, n, k), n) == (focus_index(f, n) + k) % ((n + 3) as int),
    decreases k,
{
    if k > 0 {
        law_screen_focus_cycles(f, n, (k - 1) as nat);
        let g = advance_focus(f, n, (k - 1) as nat);
        let m: int = (n + 3) as int;
        let i = focus_index(f, n);
        assert(0 <= i < m);
        let j = (i + k - 1) % m;
        assert(focus_index(g, n) == j);
        assert((i + k) % m == (if j + 1 == m { 0 } else { j + 1 })) by (nonlinear_arith)
            requires
                j == (i + k - 1) % m,
                m > 0,
                0 <= i,
                k >= 1,
        {
        }
    } else {
        let i = focus_index(f, n);
        let m: int = (n + 3) as int;
        assert(0 <= i < m);
        assert(i % m == i) by (nonlinear_arith)
            requires
                0 <= i < m,
        {
        }
    }
}

/// The textboxes' texts.
pub open spec fn box_values(b: Seq<ScreenTextbox>) -> Seq<Seq<char>> {
    b.map_values(|t: ScreenTextbox| t.value@)
}

/// The filters of the non-empty textboxes, in order.
pub open spec fn screen_filters(b: Seq<ScreenTextbox>) -> Seq<(Tag, Seq<char>)>
    decreases b.len(),
{
    if b.len() == 0 {
        Seq::empty()
    } else if b.last().value@.len() > 0 {
        screen_filters(b.drop_last()).push((b.last().filter_key, b.last().value@))
    } else {
        screen_filters(b.drop_last())
    }
}

/// `s` with `c` typed at its end.
pub open spec fn typed(s: Seq<char>, c: char) -> Seq<char> {
    s.push(c)
}

/// `s` with its last character erased, if it has one.
pub open spec fn erased(s: Seq<char>) -> Seq<char> {
    if s.len() > 0 {
        s.drop_last()
    } else {
        s
    }
}

/// An outcome.
pub open spec fn outcome(result: KeyResult, effect: ScreenEffect, preview: bool) -> ScreenOutcome {
    ScreenOutcome { result, effect, preview }
}

/// The action closes or confirms.
pub open spec fn closes_or_confirms(a: Option<CommonAction>) -> bool {
    a == Some(CommonAction::Close) || a == Some(CommonAction::Confirm)
}

/// The list moves bound to navigation actions while browsing the songs.
pub open spec fn list_move_of(a: CommonAction) -> Option<ListMove> {
    match a {
        CommonAction::Down => Some(ListMove::Next),
        CommonAction::Up => Some(ListMove::Prev),
        CommonAction::DownHalf => Some(ListMove::NextHalf),
        CommonAction::UpHalf => Some(ListMove::PrevHalf),
        CommonAction::Top => Some(ListMove::First),
        CommonAction::Bottom => Some(ListMove::Last),
        CommonAction::NextResult => Some(ListMove::NextMatch),
        CommonAction::PreviousResult => Some(ListMove::PrevMatch),
        _ => None,
    }
}

impl SearchScreen {
    /// The column has a textbox and the focus is on an input.
    pub open spec fn well_formed(&self) -> bool {
        &&& self.textboxes@.len() > 0
        &&& focus_valid(self.focused, self.textboxes@.len())
    }

    /// The textboxes' texts.
    pub open spec fn values(&self) -> Seq<Seq<char>> {
        box_values(self.textboxes@)
    }

    /// Both columns have the same textboxes, labels and tags, whatever
    /// their texts.
    pub open spec fn same_boxes(&self, other: &SearchScreen) -> bool {
        &&& self.textboxes@.len() == other.textboxes@.len()
        &&& forall|i: int| 0 <= i < self.textboxes@.len() ==> (#[trigger] self.textboxes@[i]).label@ == other.textboxes@[i].label@
            && self.textboxes@[i].filter_key == other.textboxes@[i].filter_key
    }

    /// The phase after `key`.
    pub open spec fn phase_after(&self, key: ScreenKey, has_results: bool) -> ScreenPhase {
        match self.phase {
            ScreenPhase::TextboxInput => if closes_or_confirms(key.action) {
                ScreenPhase::Search
            } else {
                self.phase
            },
            ScreenPhase::Search => match key.action {
                Some(CommonAction::Right) => if has_results {
                    ScreenPhase::List { filter_input_on: false }
                } else {
                    self.phase
                },
                Some(CommonAction::Confirm) | Some(CommonAction::FocusInput) => if self.focused is Textboxes {
                    ScreenPhase::TextboxInput
                } else {
                    self.phase
                },
                _ => self.phase,
            },
            ScreenPhase::List { filter_input_on: true } => if closes_or_confirms(key.action) {
                ScreenPhase::List { filter_input_on: false }
            } else {
                self.phase
            },
            ScreenPhase::List { filter_input_on: false } => match key.action {
                Some(CommonAction::Left) => ScreenPhase::Search,
                Some(CommonAction::EnterSearch) => ScreenPhase::List { filter_input_on: true },
                _ => self.phase,
            },
        }
    }

    /// The focus after `key`.
    pub open spec fn focus_after(&self, key: ScreenKey) -> ScreenFocus {
        let n = self.textboxes@.len();
        match self.phase {
            ScreenPhase::Search => match key.action {
                Some(CommonAction::Down) => next_focus(self.focused, n),
                Some(CommonAction::Up) => prev_focus(self.focused, n),
                Some(CommonAction::Top) => ScreenFocus::Textboxes(0),
                Some(CommonAction::Bottom) => ScreenFocus::Buttons(0),
                _ => self.focused,
            },
            _ => self.focused,
        }
    }

    /// The search was reset by confirming the reset button.
    pub open spec fn resets(&self, key: ScreenKey) -> bool {
        self.phase is Search && key.action == Some(CommonAction::Confirm) && self.focused is Buttons
    }

    /// The textboxes' texts after `key`.
    pub open spec fn values_after(&self, key: ScreenKey) -> Seq<Seq<char>> {
        if self.resets(key) {
            Seq::new(self.textboxes@.len(), |i: int| Seq::<char>::empty())
        } else if self.phase is TextboxInput && !closes_or_confirms(key.action) {
            match (self.focused, key.code) {
                (ScreenFocus::Textboxes(i), KeyCode::Char(c)) => self.values().update(i as int, typed(self.values()[i as int], c)),
                (ScreenFocus::Textboxes(i), KeyCode::Backspace) => self.values().update(i as int, erased(self.values()[i as int])),
                _ => self.values(),
            }
        } else {
            self.values()
        }
    }

    /// The search mode after `key`: cycled by confirming its input, back to
    /// containment by a reset.
    pub open spec fn mode_after(&self, key: ScreenKey) -> SearchMode {
        if self.resets(key) {
            SearchMode::Contains
        } else if self.phase is Search && key.action == Some(CommonAction::Confirm) && self.focused == ScreenFocus::Filters(0) {
            next_search_mode(self.mode)
        } else {
            self.mode
        }
    }

    /// The case switch after `key`: toggled by confirming it, off after a
    /// reset.
    pub open spec fn case_after(&self, key: ScreenKey) -> bool {
        if self.resets(key) {
            false
        } else if self.phase is Search && key.action == Some(CommonAction::Confirm) && (self.focused matches ScreenFocus::Filters(
            i,
        ) && i != 0) {
            !self.case_sensitive
        } else {
            self.case_sensitive
        }
    }

    /// The filter over the songs found after `key`.
    pub open spec fn filter_after(&self, key: ScreenKey) -> Option<Seq<char>> {
        let f = match self.filter {
            Some(s) => Some(s@),
            None => None,
        };
        if self.resets(key) {
            None
        } else {
            match self.phase {
                ScreenPhase::List { filter_input_on: true } => if key.action == Some(CommonAction::Close) {
                    None
                } else if key.action == Some(CommonAction::Confirm) {
                    f
                } else {
                    match (f, key.code) {
                        (Some(s), KeyCode::Char(c)) => Some(typed(s, c)),
                        (Some(s), KeyCode::Backspace) => Some(erased(s)),
                        _ => f,
                    }
                },
                ScreenPhase::List { filter_input_on: false } => if key.action == Some(CommonAction::EnterSearch) {
                    Some(Seq::empty())
                } else {
                    f
                },
                _ => f,
            }
        }
    }

    /// What `key` leads to; `has_results` tells whether songs were found,
    /// `selected` whether one is under the cursor, `marked` whether some are
    /// marked.
    pub open spec fn outcome_of(&self, key: ScreenKey, has_results: bool, selected: bool, marked: bool) -> ScreenOutcome {
        let render = outcome(KeyResult::Render, ScreenEffect::Nothing, false);
        let skip = outcome(KeyResult::SkipRender, ScreenEffect::Nothing, false);
        let not_handled = outcome(KeyResult::NotHandled, ScreenEffect::Nothing, false);
        let add_current = if selected {
            outcome(KeyResult::Render, ScreenEffect::AddSelected, false)
        } else {
            skip
        };
        match self.phase {
            ScreenPhase::TextboxInput => if closes_or_confirms(key.action) {
                outcome(KeyResult::Render, ScreenEffect::Search, true)
            } else {
                match key.code {
                    KeyCode::Char(_) | KeyCode::Backspace => if self.focused is Textboxes {
                        render
                    } else {
                        skip
                    },
                    KeyCode::Other => skip,
                }
            },
            ScreenPhase::Search => match key.action {
                None => not_handled,
                Some(a) => match a {
                    CommonAction::Down | CommonAction::Up | CommonAction::Top | CommonAction::Bottom => render,
                    CommonAction::Right => if has_results {
                        outcome(KeyResult::Render, ScreenEffect::Nothing, true)
                    } else {
                        render
                    },
                    CommonAction::Confirm => match self.focused {
                        ScreenFocus::Textboxes(_) => render,
                        ScreenFocus::Buttons(_) => outcome(KeyResult::Render, ScreenEffect::ClearResults, true),
                        ScreenFocus::Filters(_) => outcome(KeyResult::Render, ScreenEffect::Search, true),
                    },
                    CommonAction::FocusInput => if self.focused is Textboxes {
                        render
                    } else {
                        not_handled
                    },
                    _ => not_handled,
                },
            },
            ScreenPhase::List { filter_input_on: true } => if key.action == Some(CommonAction::Close) {
                outcome(KeyResult::Render, ScreenEffect::Nothing, true)
            } else if key.action == Some(CommonAction::Confirm) {
                outcome(KeyResult::Render, ScreenEffect::List(ListMove::NextMatch), true)
            } else {
                match key.code {
                    KeyCode::Char(_) | KeyCode::Backspace => render,
                    KeyCode::Other => skip,
                }
            },
            ScreenPhase::List { filter_input_on: false } => match key.action {
                None => not_handled,
                Some(a) => match list_move_of(a) {
                    Some(m) => outcome(KeyResult::Render, ScreenEffect::List(m), true),
                    None => match a {
                        CommonAction::Right | CommonAction::Confirm => add_current,
                        CommonAction::Left => outcome(KeyResult::Render, ScreenEffect::Nothing, true),
                        CommonAction::EnterSearch => render,
                        CommonAction::Select => outcome(KeyResult::Render, ScreenEffect::List(ListMove::MarkAndNext), false),
                        CommonAction::FocusInput | CommonAction::Delete => skip,
                        CommonAction::Add => if marked {
                            outcome(KeyResult::Render, ScreenEffect::AddMarked, false)
                        } else {
                            add_current
                        },
                        _ => not_handled,
                    },
                },
            },
        }
    }
}

fn textbox(label: &str, filter_key: Tag) -> (r: ScreenTextbox)
    ensures
        r.label@ == label@,
        r.filter_key == filter_key,
        r.value@.len() == 0,
{
    ScreenTextbox { label: label.to_string(), filter_key, value: String::new() }
}

fn typed_string(s: &String, c: char) -> (r: String)
    ensures
        r@ == typed(s@, c),
{
    let mut chars = to_chars(s.as_str());
    chars.push(c);
    chars_to_string(chars.as_slice())
}

fn erased_string(s: &String) -> (r: String)
    ensures
        r@ == erased(s@),
{
    let mut chars = to_chars(s.as_str());
    if chars.len() > 0 {
        chars.pop();
    }
    chars_to_string(chars.as_slice())
}

impl SearchScreen {
    /// The screen as it starts: textboxes for any tag, artist, album, album
    /// artist, title, file name and genre, all empty and the first focused;
    /// searching for containment, ignoring case; nothing found yet.
    pub fn new() -> (r: SearchScreen)
        ensures
            r.well_formed(),
            r.textboxes@.len() == 7,
            r.textboxes@[0].filter_key == Tag::Any && r.textboxes@[0].label@ == " Any Tag         :"@,
            r.textboxes@[1].filter_key == Tag::Artist && r.textboxes@[1].label@ == " Artist          :"@,
            r.textboxes@[2].filter_key == Tag::Album && r.textboxes@[2].label@ == " Album           :"@,
            r.textboxes@[3].filter_key == Tag::AlbumArtist && r.textboxes@[3].label@ == " Album Artist    :"@,
            r.textboxes@[4].filter_key == Tag::Title && r.textboxes@[4].label@ == " Title           :"@,
            r.textboxes@[5].filter_key == Tag::File && r.textboxes@[5].label@ == " File Name       :"@,
            r.textboxes@[6].filter_key == Tag::Genre && r.textboxes@[6].label@ == " Genre           :"@,
            forall|i: int| 0 <= i < 7 ==> (#[trigger] r.textboxes@[i]).value@.len() == 0,
            r.mode == SearchMode::Contains,
            !r.case_sensitive,
            r.focused == ScreenFocus::Textboxes(0),
            r.phase == ScreenPhase::Search,
            r.filter is None,
    {
        let textboxes = vec![
            textbox(" Any Tag         :", Tag::Any),
            textbox(" Artist          :", Tag::Artist),
            textbox(" Album           :", Tag::Album),
            textbox(" Album Artist    :", Tag::AlbumArtist),
            textbox(" Title           :", Tag::Title),
            textbox(" File Name       :", Tag::File),
            textbox(" Genre           :", Tag::Genre),
        ];
        SearchScreen {
            textboxes,
            mode: SearchMode::Contains,
            case_sensitive: false,
            focused: ScreenFocus::Textboxes(0),
            phase: ScreenPhase::Search,
            filter: None,
        }
    }

    /// The labels of the filter inputs and the button.
    pub fn labels() -> (r: (String, String, String))
        ensures
            r.0@ == " Search mode     :"@,
            r.1@ == " Case Sensistive :"@,
            r.2@ == " Reset"@,
    {
        (String::from_str(" Search mode     :"), String::from_str(" Case Sensistive :"), String::from_str(" Reset"))
    }

    /// Focuses the next input, going round.
    pub fn next(&mut self)
        requires
            old(self).well_formed(),
        ensures
            final(self).focused == next_focus(old(self).focused, old(self).textboxes@.len()),
            final(self).textboxes == old(self).textboxes,
            final(self).mode == old(self).mode,
            final(self).case_sensitive == old(self).case_sensitive,
            final(self).phase == old(self).phase,
            final(self).filter == old(self).filter,
            final(self).well_formed(),
    {
        let n = self.textboxes.len();
        self.focused = match self.focused {
            ScreenFocus::Textboxes(i) => if i + 1 == n {
                ScreenFocus::Filters(0)
            } else {
                ScreenFocus::Textboxes(i + 1)
            },
            ScreenFocus::Filters(i) => if i + 1 == 2 {
                ScreenFocus::Buttons(0)
            } else {
                ScreenFocus::Filters(i + 1)
            },
            ScreenFocus::Buttons(i) => if i + 1 == 1 {
                ScreenFocus::Textboxes(0)
            } else {
                ScreenFocus::Buttons(i + 1)
            },
        };
    }

    /// Focuses the previous input, going round.
    pub fn prev(&mut self)
        requires
            old(self).well_formed(),
        ensures
            final(self).focused == prev_focus(old(self).focused, old(self).textboxes@.len()),
            final(self).textboxes == old(self).textboxes,
            final(self).mode == old(self).mode,
            final(self).case_sensitive == old(self).case_sensitive,
            final(self).phase == old(self).phase,
            final(self).filter == old(self).filter,
            final(self).well_formed(),
    {
        let n = self.textboxes.len();
        self.focused = match self.focused {
            ScreenFocus::Textboxes(i) => if i == 0 {
                ScreenFocus::Buttons(0)
            } else {
                ScreenFocus::Textboxes(i - 1)
            },
            ScreenFocus::Filters(i) => if i == 0 {
                ScreenFocus::Textboxes(n - 1)
            } else {
                ScreenFocus::Filters(i - 1)
            },
            ScreenFocus::Buttons(i) => if i == 0 {
                ScreenFocus::Filters(1)
            } else {
                ScreenFocus::Buttons(i - 1)
            },
        };
    }

    /// Empties every textbox and sets the search back to containment,
    /// ignoring case.
    pub fn reset(&mut self)
        ensures
            final(self).same_boxes(old(self)),
            final(self).values() == Seq::new(old(self).textboxes@.len(), |i: int| Seq::<char>::empty()),
            final(self).mode == SearchMode::Contains,
            !final(self).case_sensitive,
            final(self).focused == old(self).focused,
            final(self).phase == old(self).phase,
            final(self).filter == old(self).filter,
    {
        let n = self.textboxes.len();
        let ghost before = self.textboxes@;
        let mut i: usize = 0;
        while i < n
            invariant
                n == self.textboxes@.len(),
                n == before.len(),
                i <= n,
                self.focused == old(self).focused,
                self.phase == old(self).phase,
                self.filter == old(self).filter,
                self.mode == old(self).mode,
                self.case_sensitive == old(self).case_sensitive,
                forall|j: int| 0 <= j < n ==> (#[trigger] self.textboxes@[j]).label@ == before[j].label@
                    && self.textboxes@[j].filter_key == before[j].filter_key,
                forall|j: int| 0 <= j < i ==> (#[trigger] self.textboxes@[j]).value@.len() == 0,
            decreases n - i,
        {
            let old_box = self.textboxes.remove(i);
            let cleared = ScreenTextbox { label: old_box.label, filter_key: old_box.filter_key, value: String::new() };
            self.textboxes.insert(i, cleared);
            i = i + 1;
        }
        self.mode = SearchMode::Contains;
        self.case_sensitive = false;
        assert forall|j: int| 0 <= j < n implies (#[trigger] self.textboxes@[j]).value@ =~= Seq::<char>::empty() by {}
        assert(self.values() =~= Seq::new(n as nat, |i: int| Seq::<char>::empty()));
    }

    /// The query the inputs make, if any textbox holds text.
    pub fn search_query(&self) -> (r: Option<ScreenQuery>)
        ensures
            screen_filters(self.textboxes@).len() == 0 ==> r is None,
            screen_filters(self.textboxes@).len() > 0 ==> (r matches Some(q) && filters_view(q.filters@) == screen_filters(self.textboxes@)
                && q.kind == filter_kind_of(self.mode) && q.case_sensitive == self.case_sensitive),
    {
        let mut filters: Vec<Filter> = Vec::new();
        for i in 0..self.textboxes.len()
            invariant
                filters_view(filters@) == screen_filters(self.textboxes@.take(i as int)),
        {
            let b = &self.textboxes[i];
            assert(self.textboxes@.take(i + 1).drop_last() =~= self.textboxes@.take(i as int));
            assert(self.textboxes@.take(i + 1).last() == self.textboxes@[i as int]);
            if !b.value.as_str().is_empty() {
                let ghost before = filters@;
                filters.push(Filter::new(b.filter_key, b.value.as_str()));
                assert(filters_view(filters@) =~= filters_view(before).push((b.filter_key, b.value@)));
            }
        }
        assert(self.textboxes@.take(self.textboxes@.len() as int) =~= self.textboxes@);
        if filters.len() == 0 {
            None
        } else {
            let kind = match self.mode {
                SearchMode::Exact => FilterKind::Exact,
                SearchMode::StartsWith => FilterKind::StartsWith,
                SearchMode::Contains => FilterKind::Contains,
                SearchMode::Regex => FilterKind::Regex,
                SearchMode::NotExact => FilterKind::NotExact,
                SearchMode::NotRegex => FilterKind::NotRegex,
            };
            Some(ScreenQuery { filters, kind, case_sensitive: self.case_sensitive })
        }
    }

    fn type_into_box(&mut self, i: usize, c: Option<char>)
        requires
            i < old(self).textboxes@.len(),
        ensures
            final(self).same_boxes(old(self)),
            final(self).values() == old(self).values().update(
                i as int,
                match c {
                    Some(ch) => typed(old(self).values()[i as int], ch),
                    None => erased(old(self).values()[i as int]),
                },
            ),
            final(self).focused == old(self).focused,
            final(self).phase == old(self).phase,
            final(self).mode == old(self).mode,
            final(self).case_sensitive == old(self).case_sensitive,
            final(self).filter == old(self).filter,
    {
        let ghost before = self.textboxes@;
        let old_box = self.textboxes.remove(i);
        let value = match c {
            Some(ch) => typed_string(&old_box.value, ch),
            None => erased_string(&old_box.value),
        };
        let ghost new_value = value@;
        let updated = ScreenTextbox { label: old_box.label, filter_key: old_box.filter_key, value };
        self.textboxes.insert(i, updated);
        proof {
            assert(self.textboxes@ =~= before.update(i as int, updated));
            assert(self.values() =~= box_values(before).update(i as int, new_value));
        }
    }

    fn edit_filter(&mut self, c: Option<char>)
        ensures
            final(self).textboxes == old(self).textboxes,
            final(self).focused == old(self).focused,
            final(self).phase == old(self).phase,
            final(self).mode == old(self).mode,
            final(self).case_sensitive == old(self).case_sensitive,
            match old(self).filter {
                Some(f) => final(self).filter matches Some(g) && g@ == match c {
                    Some(ch) => typed(f@, ch),
                    None => erased(f@),
                },
                None => final(self).filter is None,
            },
    {
        let next = match &self.filter {
            Some(f) => Some(
                match c {
                    Some(ch) => typed_string(f, ch),
                    None => erased_string(f),
                },
            ),
            None => None,
        };
        self.filter = next;
    }

    /// Handles a key: `has_results` tells whether songs were found,
    /// `selected` whether one is under the cursor of the list, `marked`
    /// whether some are marked. Typing goes to the focused textbox or to
    /// the filter; the column's navigation moves the focus; confirming
    /// activates the focused input; in the list, navigation moves the
    /// cursor and confirming enqueues.
    pub fn handle_key(&mut self, key: ScreenKey, has_results: bool, selected: bool, marked: bool) -> (r: ScreenOutcome)
        requires
            old(self).well_formed(),
        ensures
            final(self).well_formed(),
            final(self).same_boxes(old(self)),
            final(self).phase == old(self).phase_after(key, has_results),
            final(self).focused == old(self).focus_after(key),
            final(self).values() == old(self).values_after(key),
            final(self).mode == old(self).mode_after(key),
            final(self).case_sensitive == old(self).case_after(key),
            match final(self).filter {
                Some(f) => old(self).filter_after(key) == Some(f@),
                None => old(self).filter_after(key) is None,
            },
            r == old(self).outcome_of(key, has_results, selected, marked),
    {
        let render = ScreenOutcome { result: KeyResult::Render, effect: ScreenEffect::Nothing, preview: false };
        let skip = ScreenOutcome { result: KeyResult::SkipRender, effect: ScreenEffect::Nothing, preview: false };
        let not_handled = ScreenOutcome { result: KeyResult::NotHandled, effect: ScreenEffect::Nothing, preview: false };
        let add_current = if selected {
            ScreenOutcome { result: KeyResult::Render, effect: ScreenEffect::AddSelected, preview: false }
        } else {
            skip
        };
        let closes = key.action == Some(CommonAction::Close) || key.action == Some(CommonAction::Confirm);
        match self.phase {
            ScreenPhase::TextboxInput => {
                if closes {
                    self.phase = ScreenPhase::Search;
                    ScreenOutcome { result: KeyResult::Render, effect: ScreenEffect::Search, preview: true }
                } else {
                    match key.code {
                        KeyCode::Char(c) => match self.focused {
                            ScreenFocus::Textboxes(i) => {
                                self.type_into_box(i, Some(c));
                                render
                            },
                            _ => skip,
                        },
                        KeyCode::Backspace => match self.focused {
                            ScreenFocus::Textboxes(i) => {
                                self.type_into_box(i, None);
                                render
                            },
                            _ => skip,
                        },
                        KeyCode::Other => skip,
                    }
                }
            },
            ScreenPhase::Search => match key.action {
                None => not_handled,
                Some(a) => match a {
                    CommonAction::Down => {
                        self.next();
                        render
                    },
                    CommonAction::Up => {
                        self.prev();
                        render
                    },
                    CommonAction::Right => {
                        if has_results {
                            self.phase = ScreenPhase::List { filter_input_on: false };
                            ScreenOutcome { result: KeyResult::Render, effect: ScreenEffect::Nothing, preview: true }
                        } else {
                            render
                        }
                    },
                    CommonAction::Top => {
                        self.focused = ScreenFocus::Textboxes(0);
                        render
                    },
                    CommonAction::Bottom => {
                        self.focused = ScreenFocus::Buttons(0);
                        render
                    },
                    CommonAction::Confirm => match self.focused {
                        ScreenFocus::Textboxes(_) => {
                            self.phase = ScreenPhase::TextboxInput;
                            render
                        },
                        ScreenFocus::Buttons(_) => {
                            self.reset();
                            self.filter = None;
                            ScreenOutcome { result: KeyResult::Render, effect: ScreenEffect::ClearResults, preview: true }
                        },
                        ScreenFocus::Filters(i) => {
                            if i == 0 {
                                self.mode.cycle();
                            } else {
                                self.case_sensitive = !self.case_sensitive;
                            }
                            ScreenOutcome { result: KeyResult::Render, effect: ScreenEffect::Search, preview: true }
                        },
                    },
                    CommonAction::FocusInput => match self.focused {
                        ScreenFocus::Textboxes(_) => {
                            self.phase = ScreenPhase::TextboxInput;
                            render
                        },
                        _ => not_handled,
                    },
                    _ => not_handled,
                },
            },
            ScreenPhase::List { filter_input_on: true } => {
                if key.action == Some(CommonAction::Close) {
                    self.phase = ScreenPhase::List { filter_input_on: false };
                    self.filter = None;
                    ScreenOutcome { result: KeyResult::Render, effect: ScreenEffect::Nothing, preview: true }
                } else if key.action == Some(CommonAction::Confirm) {
                    self.phase = ScreenPhase::List { filter_input_on: false };
                    ScreenOutcome { result: KeyResult::Render, effect: ScreenEffect::List(ListMove::NextMatch), preview: true }
                } else {
                    match key.code {
                        KeyCode::Char(c) => {
                            self.edit_filter(Some(c));
                            render
                        },
                        KeyCode::Backspace => {
                            self.edit_filter(None);
                            render
                        },
                        KeyCode::Other => skip,
                    }
                }
            },
            ScreenPhase::List { filter_input_on: false } => match key.action {
                None => not_handled,
                Some(a) => {
                    let mv = match a {
                        CommonAction::Down => Some(ListMove::Next),
                        CommonAction::Up => Some(ListMove::Prev),
                        CommonAction::DownHalf => Some(ListMove::NextHalf),
                        CommonAction::UpHalf => Some(ListMove::PrevHalf),
                        CommonAction::Top => Some(ListMove::First),
                        CommonAction::Bottom => Some(ListMove::Last),
                        CommonAction::NextResult => Some(ListMove::NextMatch),
                        CommonAction::PreviousResult => Some(ListMove::PrevMatch),
                        _ => None,
                    };
                    match mv {
                        Some(m) => ScreenOutcome { result: KeyResult::Render, effect: ScreenEffect::List(m), preview: true },
                        None => match a {
                            CommonAction::Right | CommonAction::Confirm => add_current,
                            CommonAction::Left => {
                                self.phase = ScreenPhase::Search;
                                ScreenOutcome { result: KeyResult::Render, effect: ScreenEffect::Nothing, preview: true }
                            },
                            CommonAction::EnterSearch => {
                                self.filter = Some(String::new());
                                self.phase = ScreenPhase::List { filter_input_on: true };
                                render
                            },
                            CommonAction::Select => ScreenOutcome {
                                result: KeyResult::Render,
                                effect: ScreenEffect::List(ListMove::MarkAndNext),
                                preview: false,
                            },
                            CommonAction::FocusInput | CommonAction::Delete => skip,
                            CommonAction::Add => if marked {
                                ScreenOutcome { result: KeyResult::Render, effect: ScreenEffect::AddMarked, preview: false }
                            } else {
                                add_current
                            },
                            _ => not_handled,
                        },
                    }
                },
            },
        }
    }
}


/// The files an add enqueues from the songs found: with songs marked, the
/// file of each marked song, in the order of their positions; else the
/// file of the song under the cursor; else none.
pub open spec fn files_to_add(songs: Seq<Song>, marked: Seq<usize>, selected: Option<usize>) -> Seq<Seq<char>> {
    if marked.len() > 0 {
        marked.map_values(|i: usize| songs[i as int].file@)
    } else {
        match selected {
            Some(s) => seq![songs[s as int].file@],
            None => Seq::empty(),
        }
    }
}

/// The files to enqueue, in order, for an add on the songs found
/// (`ScreenEffect::AddMarked` or `ScreenEffect::AddSelected`); the marks
/// are positions in increasing order.
pub fn add_files(songs: &Vec<Song>, marked: &Vec<usize>, selected: Option<usize>) -> (r: Vec<String>)
    requires
        strictly_increasing(marked@),
        all_below(marked@, songs@.len() as int),
        selected matches Some(s) ==> s < songs@.len(),
    ensures
        views(r@) == files_to_add(songs@, marked@, selected),
{
    let mut r: Vec<String> = Vec::new();
    if marked.len() > 0 {
        for k in 0..marked.len()
            invariant
                all_below(marked@, songs@.len() as int),
                views(r@) == marked@.take(k as int).map_values(|i: usize| songs@[i as int].file@),
        {
            let i = marked[k];
            assert(marked@[k as int] < songs@.len());
            let ghost before = r@;
            let f = songs[i].file.clone();
            assert(f@ == songs@[i as int].file@);
            r.push(f);
            assert(views(r@) =~= views(before).push(songs@[i as int].file@));
            assert(marked@.take(k + 1) =~= marked@.take(k as int).push(i));
            assert(marked@.take(k + 1).map_values(|i: usize| songs@[i as int].file@) =~= marked@.take(k as int).map_values(
                |i: usize| songs@[i as int].file@,
            ).push(songs@[i as int].file@));
        }
        assert(marked@.take(marked@.len() as int) =~= marked@);
    } else {
        match selected {
            Some(s) => {
                r.push(songs[s].file.clone());
                assert(views(r@) =~= seq![songs@[s as int].file@]);
            },
            None => {
                assert(views(r@) =~= Seq::<Seq<char>>::empty());
            },
        }
    }
    r
}

} // verus!
