//! The search pane: its column of inputs (tag textboxes, spinners, buttons
//! separated by rules), how focus moves through them, what activating one
//! does, and the sticker filters they describe.
use vstd::prelude::*;

use crate::geometry::{Position, Rect};
use crate::property::opt_view;
use crate::queue::{chosen_rows, QueueState};
use crate::screens::browser::{space_string, spaces};
use crate::text::{parse_i32, parse_signed, str_equals, to_chars, trim, trimmed, views};

verus! {

/// Which input an entry is, where the pane needs to know.
#[derive(Clone, Copy, PartialEq, Eq, Structural, Debug)]
pub enum InputKey {
    /// A textbox searching one tag.
    Tag,
    CustomQuery,
    RatingValue,
    SearchMode,
    FoldCase,
    StripDiacritics,
    RatingMode,
    Like,
    Reset,
    SearchButton,
}

/// A textbox, bound to an input buffer.
pub struct TextboxInput {
    pub label: String,
    pub key: InputKey,
    /// The tag the textbox searches.
    pub filter_key: Option<String>,
    /// What the buffer holds after a reset (empty when `None`).
    pub initial_value: Option<String>,
    pub buffer_id: u64,
}

/// A value that cycles when activated.
pub struct SpinnerInput {
    pub key: InputKey,
    pub label: String,
}

/// A button.
pub struct ButtonInput {
    pub key: InputKey,
    pub label: String,
}

/// One row of the input column.
pub enum InputType {
    Textbox(TextboxInput),
    Numberbox(TextboxInput),
    Spinner(SpinnerInput),
    Button(ButtonInput),
    Separator,
}

impl InputType {
    pub open spec fn is_separator(&self) -> bool {
        self is Separator
    }
}

/// How tag values are matched.
#[derive(Clone, Copy, PartialEq, Eq, Structural, Debug)]
pub enum SearchMode {
    Contains,
    Exact,
    NotExact,
    StartsWith,
    Regex,
    NotRegex,
}

/// Whether songs are filtered by their rating sticker.
#[derive(Clone, Copy, PartialEq, Eq, Structural, Debug)]
pub enum RatingMode {
    Any,
    Equals,
    GreaterThan,
    LessThan,
}

/// Whether songs are filtered by their like sticker.
#[derive(Clone, Copy, PartialEq, Eq, Structural, Debug)]
pub enum LikedMode {
    Any,
    Liked,
    Neutral,
    Disliked,
}

/// How the player daemon compares a filter value.
#[derive(Clone, Copy, PartialEq, Eq, Structural, Debug)]
pub enum FilterKind {
    Exact,
    StartsWith,
    Contains,
    Regex,
    NotExact,
    NotRegex,
}

/// A filter on an integer sticker.
#[derive(Clone, Copy, PartialEq, Eq, Structural, Debug)]
pub enum StickerFilter {
    EqualsInt(i32),
    GreaterThanInt(i32),
    LessThanInt(i32),
}

/// What the pane does after an input was activated.
#[derive(Clone, Copy, PartialEq, Eq, Structural, Debug)]
pub enum ActionResult {
    NoAction,
    Search,
    Reset,
}

/// What the text input should do.
#[derive(Clone, Copy, PartialEq, Eq, Structural, Debug)]
pub enum InputCommand {
    Nothing,
    /// Leave insert mode.
    NormalMode,
    /// Start editing this buffer.
    InsertMode(u64),
}

/// A change to an input buffer.
pub enum BufferCommand {
    SetValue(u64, String),
    Clear(u64),
}

/// The phase of the search pane.
#[derive(Clone, Copy, PartialEq, Eq, Structural, Debug)]
pub enum Phase {
    SearchTextboxInput,
    Search,
    BrowseResults { filter_input_on: bool },
}

/// The position of a mode in its cycle.
pub open spec fn search_mode_index(m: SearchMode) -> nat {
    match m {
        SearchMode::Contains => 0,
        SearchMode::Exact => 1,
        SearchMode::NotExact => 2,
        SearchMode::StartsWith => 3,
        SearchMode::Regex => 4,
        SearchMode::NotRegex => 5,
    }
}

/// The position of a mode in its cycle.
pub open spec fn rating_mode_index(m: RatingMode) -> nat {
    match m {
        RatingMode::Any => 0,
        RatingMode::Equals => 1,
        RatingMode::GreaterThan => 2,
        RatingMode::LessThan => 3,
    }
}

/// The position of a mode in its cycle.
pub open spec fn liked_mode_index(m: LikedMode) -> nat {
    match m {
        LikedMode::Any => 0,
        LikedMode::Liked => 1,
        LikedMode::Neutral => 2,
        LikedMode::Disliked => 3,
    }
}

impl SearchMode {
    /// Moves to the next mode, the last one wrapping to the first.
    pub fn cycle(&mut self)
        ensures
            *final(self) == next_search_mode(*old(self)),
            search_mode_index(*final(self)) == (search_mode_index(*old(self)) + 1) % 6,
    {
        *self = match *self {
            SearchMode::Contains => SearchMode::Exact,
            SearchMode::Exact => SearchMode::NotExact,
            SearchMode::NotExact => SearchMode::StartsWith,
            SearchMode::StartsWith => SearchMode::Regex,
            SearchMode::Regex => SearchMode::NotRegex,
            SearchMode::NotRegex => SearchMode::Contains,
        };
    }

    /// The label shown for the mode.
    pub fn label(self) -> (r: &'static str)
        ensures
            r@ == search_mode_label(self),
    {
        match self {
            SearchMode::Contains => "Contains",
            SearchMode::Exact => "Exact",
            SearchMode::NotExact => "Not exact",
            SearchMode::StartsWith => "Starts with",
            SearchMode::Regex => "Regex",
            SearchMode::NotRegex => "Not regex",
        }
    }

    /// The filter comparison the mode searches with.
    pub fn filter_kind(self) -> (r: FilterKind)
        ensures
            r == match self {
                SearchMode::Exact => FilterKind::Exact,
                SearchMode::StartsWith => FilterKind::StartsWith,
                SearchMode::Contains => FilterKind::Contains,
                SearchMode::Regex => FilterKind::Regex,
                SearchMode::NotExact => FilterKind::NotExact,
                SearchMode::NotRegex => FilterKind::NotRegex,
            },
    {
        match self {
            SearchMode::Exact => FilterKind::Exact,
            SearchMode::StartsWith => FilterKind::StartsWith,
            SearchMode::Contains => FilterKind::Contains,
            SearchMode::Regex => FilterKind::Regex,
            SearchMode::NotExact => FilterKind::NotExact,
            SearchMode::NotRegex => FilterKind::NotRegex,
        }
    }
}

/// The label shown for a search mode.
pub open spec fn search_mode_label(m: SearchMode) -> Seq<char> {
    match m {
        SearchMode::Contains => "Contains"@,
        SearchMode::Exact => "Exact"@,
        SearchMode::NotExact => "Not exact"@,
        SearchMode::StartsWith => "Starts with"@,
        SearchMode::Regex => "Regex"@,
        SearchMode::NotRegex => "Not regex"@,
    }
}

impl RatingMode {
    /// Moves to the next mode, the last one wrapping to the first.
    pub fn cycle(&mut self)
        ensures
            *final(self) == next_rating_mode(*old(self)),
            rating_mode_index(*final(self)) == (rating_mode_index(*old(self)) + 1) % 4,
    {
        *self = match *self {
            RatingMode::Any => RatingMode::Equals,
            RatingMode::Equals => RatingMode::GreaterThan,
            RatingMode::GreaterThan => RatingMode::LessThan,
            RatingMode::LessThan => RatingMode::Any,
        };
    }
}

impl LikedMode {
    /// Moves to the next mode, the last one wrapping to the first.
    pub fn cycle(&mut self)
        ensures
            *final(self) == next_liked_mode(*old(self)),
            liked_mode_index(*final(self)) == (liked_mode_index(*old(self)) + 1) % 4,
    {
        *self = match *self {
            LikedMode::Any => LikedMode::Liked,
            LikedMode::Liked => LikedMode::Neutral,
            LikedMode::Neutral => LikedMode::Disliked,
            LikedMode::Disliked => LikedMode::Any,
        };
    }
}

/// The mode after `m` in the cycle.
pub open spec fn next_search_mode(m: SearchMode) -> SearchMode {
    match m {
        SearchMode::Contains => SearchMode::Exact,
        SearchMode::Exact => SearchMode::NotExact,
        SearchMode::NotExact => SearchMode::StartsWith,
        SearchMode::StartsWith => SearchMode::Regex,
        SearchMode::Regex => SearchMode::NotRegex,
        SearchMode::NotRegex => SearchMode::Contains,
    }
}

/// The mode after `m` in the cycle.
pub open spec fn next_rating_mode(m: RatingMode) -> RatingMode {
    match m {
        RatingMode::Any => RatingMode::Equals,
        RatingMode::Equals => RatingMode::GreaterThan,
        RatingMode::GreaterThan => RatingMode::LessThan,
        RatingMode::LessThan => RatingMode::Any,
    }
}

/// The mode after `m` in the cycle.
pub open spec fn next_liked_mode(m: LikedMode) -> LikedMode {
    match m {
        LikedMode::Any => LikedMode::Liked,
        LikedMode::Liked => LikedMode::Neutral,
        LikedMode::Neutral => LikedMode::Disliked,
        LikedMode::Disliked => LikedMode::Any,
    }
}

/// Activating a spinner cycles through all of its values: the search mode
/// comes back to where it started after six steps and not before, the
/// rating and like modes after four.
pub proof fn law_spinner_cycles(s: SearchMode, r: RatingMode, l: LikedMode)
    ensures
        next_search_mode(next_search_mode(next_search_mode(next_search_mode(next_search_mode(
            next_search_mode(s),
        ))))) == s,
        next_search_mode(s) != s,
        next_search_mode(next_search_mode(s)) != s,
        next_search_mode(next_search_mode(next_search_mode(s))) != s,
        next_rating_mode(next_rating_mode(next_rating_mode(next_rating_mode(r)))) == r,
        next_rating_mode(r) != r,
        next_rating_mode(next_rating_mode(r)) != r,
        next_liked_mode(next_liked_mode(next_liked_mode(next_liked_mode(l)))) == l,
        next_liked_mode(l) != l,
        next_liked_mode(next_liked_mode(l)) != l,
{
}

/// The column of inputs of the search pane and the values of its spinners.
pub struct InputGroups {
    pub inputs: Vec<InputType>,
    pub search_button: bool,
    pub initial_fold_case: bool,
    pub initial_strip_diacritics: bool,
    pub focused_idx: usize,
    /// Where the column was last drawn.
    pub area: Rect,
    pub fold_case: bool,
    pub strip_diacritics: bool,
    pub search_mode: SearchMode,
    pub rating_mode: RatingMode,
    pub liked_mode: LikedMode,
}

/// The input `t` places after `i`, wrapping around the end, is a separator.
pub open spec fn sep_after(inputs: Seq<InputType>, i: int, t: int) -> bool {
    inputs[(i + t) % (inputs.len() as int)].is_separator()
}

/// The input `t` places before `i`, wrapping around the start, is a
/// separator.
pub open spec fn sep_before(inputs: Seq<InputType>, i: int, t: int) -> bool {
    inputs[(i - t + inputs.len()) % (inputs.len() as int)].is_separator()
}

/// How many places after `i` the next input that is not a separator lies,
/// wrapping around the end.
pub open spec fn next_distance(inputs: Seq<InputType>, i: int) -> int {
    choose|k: int|
        1 <= k <= inputs.len() && !sep_after(inputs, i, k) && forall|t: int|
            1 <= t < k ==> #[trigger] sep_after(inputs, i, t)
}

/// How many places before `i` the previous input that is not a separator
/// lies, wrapping around the start.
pub open spec fn prev_distance(inputs: Seq<InputType>, i: int) -> int {
    choose|k: int|
        1 <= k <= inputs.len() && !sep_before(inputs, i, k) && forall|t: int|
            1 <= t < k ==> #[trigger] sep_before(inputs, i, t)
}

/// The index `next` moves focus to from `i`: the first input after `i`
/// that is not a separator, wrapping around the end.
pub open spec fn next_focus(inputs: Seq<InputType>, i: int) -> int {
    (i + next_distance(inputs, i)) % (inputs.len() as int)
}

/// The index `prev` moves focus to from `i`: the first input before `i`
/// that is not a separator, wrapping around the start.
pub open spec fn prev_focus(inputs: Seq<InputType>, i: int) -> int {
    (i - prev_distance(inputs, i) + inputs.len()) % (inputs.len() as int)
}

/// Some input is not a separator.
pub open spec fn has_focusable(inputs: Seq<InputType>) -> bool {
    exists|j: int| 0 <= j < inputs.len() && !inputs[j].is_separator()
}

impl InputGroups {
    /// The column is usable: it has an input to focus and the focus lies
    /// within it.
    pub open spec fn well_formed(&self) -> bool {
        self.focused_idx < self.inputs@.len() && has_focusable(self.inputs@)
    }

    /// The current search mode.
    pub fn search_mode(&self) -> (r: SearchMode)
        ensures
            r == self.search_mode,
    {
        self.search_mode
    }

    /// Whether songs are filtered by rating.
    pub fn is_rating_filter_active(&self) -> (r: bool)
        ensures
            r == (self.rating_mode != RatingMode::Any),
    {
        match self.rating_mode {
            RatingMode::Any => false,
            _ => true,
        }
    }

    /// Whether matching ignores case.
    pub fn fold_case(&self) -> (r: bool)
        ensures
            r == self.fold_case,
    {
        self.fold_case
    }

    /// Whether matching ignores diacritics.
    pub fn strip_diacritics(&self) -> (r: bool)
        ensures
            r == self.strip_diacritics,
    {
        self.strip_diacritics
    }

    /// The like filter the column describes.
    pub fn liked_filter(&self) -> (r: Option<StickerFilter>)
        ensures
            r == match self.liked_mode {
                LikedMode::Any => None,
                LikedMode::Liked => Some(StickerFilter::EqualsInt(2)),
                LikedMode::Neutral => Some(StickerFilter::EqualsInt(1)),
                LikedMode::Disliked => Some(StickerFilter::EqualsInt(0)),
            },
    {
        match self.liked_mode {
            LikedMode::Any => None,
            LikedMode::Liked => Some(StickerFilter::EqualsInt(2)),
            LikedMode::Neutral => Some(StickerFilter::EqualsInt(1)),
            LikedMode::Disliked => Some(StickerFilter::EqualsInt(0)),
        }
    }

    /// The rating filter the column describes, given the text of the rating
    /// value box: an empty box means zero; text that is not an `i32` once
    /// trimmed is an error.
    pub fn rating_filter(&self, rating_value: &str) -> (r: Result<Option<StickerFilter>, ()>)
        ensures
            ({
                let v = rating_value@;
                let parsed: Option<int> = if v.len() == 0 {
                    Some(0)
                } else {
                    parse_signed(trimmed(v), i32::MIN as int, i32::MAX as int)
                };
                match parsed {
                    None => r is Err,
                    Some(n) => r == Ok::<Option<StickerFilter>, ()>(
                        match self.rating_mode {
                            RatingMode::Equals => Some(StickerFilter::EqualsInt(n as i32)),
                            RatingMode::GreaterThan => Some(StickerFilter::GreaterThanInt(n as i32)),
                            RatingMode::LessThan => Some(StickerFilter::LessThanInt(n as i32)),
                            RatingMode::Any => None,
                        },
                    ),
                }
            }),
    {
        let chars = to_chars(rating_value);
        let value: i32 = if chars.len() == 0 {
            0
        } else {
            match parse_i32(&trim(&chars)) {
                Some(v) => v,
                None => {
                    return Err(());
                },
            }
        };
        Ok(
            match self.rating_mode {
                RatingMode::Equals => Some(StickerFilter::EqualsInt(value)),
                RatingMode::GreaterThan => Some(StickerFilter::GreaterThanInt(value)),
                RatingMode::LessThan => Some(StickerFilter::LessThanInt(value)),
                RatingMode::Any => None,
            },
        )
    }

    /// Focuses the first input.
    pub fn first(&mut self)
        ensures
            final(self).focused_idx == 0,
            final(self).inputs@ == old(self).inputs@,
            final(self).same_layout(old(self)),
            final(self).spinners_equal(old(self)),
    {
        self.focused_idx = 0;
    }

    /// Focuses the last input.
    pub fn last(&mut self)
        requires
            old(self).inputs@.len() > 0,
        ensures
            final(self).focused_idx == old(self).inputs@.len() - 1,
            final(self).inputs@ == old(self).inputs@,
            final(self).same_layout(old(self)),
            final(self).spinners_equal(old(self)),
    {
        self.focused_idx = self.inputs.len() - 1;
    }

    /// The focused input.
    pub fn focused(&self) -> (r: &InputType)
        requires
            self.focused_idx < self.inputs@.len(),
        ensures
            *r == self.inputs@[self.focused_idx as int],
    {
        &self.inputs[self.focused_idx]
    }

    /// Focuses the next input that is not a separator, wrapping around.
    pub fn next(&mut self)
        requires
            old(self).well_formed(),
        ensures
            final(self).focused_idx == next_focus(old(self).inputs@, old(self).focused_idx as int),
            final(self).inputs@ == old(self).inputs@,
            final(self).same_layout(old(self)),
            final(self).spinners_equal(old(self)),
            final(self).well_formed(),
            !final(self).inputs@[final(self).focused_idx as int].is_separator(),
    {
        let n = self.inputs.len();
        let ghost i0 = self.focused_idx as int;
        let ghost inputs = self.inputs@;
        let mut idx = (self.focused_idx + 1) % n;
        let mut k: usize = 1;
        while self.inputs[idx].is_separator_exec()
            invariant
                n == self.inputs@.len(),
                inputs == self.inputs@,
                0 <= i0 < n,
                1 <= k <= n,
                idx == (i0 + k) % (n as int),
                forall|t: int| 1 <= t < k ==> #[trigger] sep_after(inputs, i0, t),
                has_focusable(inputs),
            decreases n - k,
        {
            assert(sep_after(inputs, i0, k as int));
            if k == n {
                proof {
                    lemma_wraps_to_every_index(inputs, i0);
                }
            }
            k = k + 1;
            idx = (idx + 1) % n;
            assert(idx == (i0 + k) % (n as int)) by (nonlinear_arith)
                requires
                    idx == ((i0 + k - 1) % (n as int) + 1) % (n as int),
                    n > 0,
            ;
        }
        self.focused_idx = idx;
        proof {
            assert(!sep_after(inputs, i0, k as int));
            assert forall|k2: int|
                1 <= k2 <= n && !sep_after(inputs, i0, k2) && (forall|t: int|
                    1 <= t < k2 ==> #[trigger] sep_after(inputs, i0, t)) implies k2 == k by {
                if k2 < k {
                    assert(sep_after(inputs, i0, k2));
                } else if k2 > k {
                    assert(sep_after(inputs, i0, k as int));
                }
            }
            assert(next_distance(inputs, i0) == k);
        }
    }
}

/// The first input at or after `start` that is not a separator.
pub open spec fn first_focusable_from(inputs: Seq<InputType>, start: int) -> int {
    choose|j: int|
        start <= j < inputs.len() && !inputs[j].is_separator() && forall|t: int|
            start <= t < j ==> #[trigger] inputs[t].is_separator()
}

/// The last input at or before `start` that is not a separator.
pub open spec fn last_focusable_until(inputs: Seq<InputType>, start: int) -> int {
    choose|j: int|
        0 <= j <= start && !inputs[j].is_separator() && forall|t: int|
            j < t <= start ==> #[trigger] inputs[t].is_separator()
}

impl InputGroups {
    /// Focuses the previous input that is not a separator, wrapping around.
    pub fn prev(&mut self)
        requires
            old(self).well_formed(),
        ensures
            final(self).focused_idx == prev_focus(old(self).inputs@, old(self).focused_idx as int),
            final(self).inputs@ == old(self).inputs@,
            final(self).same_layout(old(self)),
            final(self).spinners_equal(old(self)),
            final(self).well_formed(),
            !final(self).inputs@[final(self).focused_idx as int].is_separator(),
    {
        let n = self.inputs.len();
        let ghost i0 = self.focused_idx as int;
        let ghost inputs = self.inputs@;
        let mut idx = if self.focused_idx == 0 {
            n - 1
        } else {
            self.focused_idx - 1
        };
        let mut k: usize = 1;
        assert(idx == (i0 - 1 + n) % (n as int)) by (nonlinear_arith)
            requires
                idx == if i0 == 0 {
                    n - 1
                } else {
                    i0 - 1
                },
                0 <= i0 < n,
        ;
        while self.inputs[idx].is_separator_exec()
            invariant
                n == self.inputs@.len(),
                inputs == self.inputs@,
                0 <= i0 < n,
                1 <= k <= n,
                idx == (i0 - k + n) % (n as int),
                forall|t: int| 1 <= t < k ==> #[trigger] sep_before(inputs, i0, t),
                has_focusable(inputs),
            decreases n - k,
        {
            assert(sep_before(inputs, i0, k as int));
            if k == n {
                proof {
                    lemma_wraps_back_to_every_index(inputs, i0);
                }
            }
            let ghost old_idx = idx;
            idx = if idx == 0 {
                n - 1
            } else {
                idx - 1
            };
            k = k + 1;
            assert(idx == (i0 - k + n) % (n as int)) by (nonlinear_arith)
                requires
                    old_idx == (i0 - (k - 1) + n) % (n as int),
                    idx == if old_idx == 0 {
                        n - 1
                    } else {
                        old_idx - 1
                    },
                    0 <= i0 < n,
                    2 <= k <= n,
            ;
        }
        self.focused_idx = idx;
        proof {
            assert(!sep_before(inputs, i0, k as int));
            assert forall|k2: int|
                1 <= k2 <= n && !sep_before(inputs, i0, k2) && (forall|t: int|
                    1 <= t < k2 ==> #[trigger] sep_before(inputs, i0, t)) implies k2 == k by {
                if k2 < k {
                    assert(sep_before(inputs, i0, k2));
                } else if k2 > k {
                    assert(sep_before(inputs, i0, k as int));
                }
            }
            assert(prev_distance(inputs, i0) == k);
        }
    }

    /// Focuses the next input that is not a separator, stopping at the end.
    pub fn next_non_wrapping(&mut self)
        requires
            old(self).focused_idx < old(self).inputs@.len(),
            exists|j: int|
                (if old(self).focused_idx + 1 < old(self).inputs@.len() {
                    old(self).focused_idx + 1
                } else {
                    old(self).inputs@.len() - 1
                }) <= j < old(self).inputs@.len() && !old(self).inputs@[j].is_separator(),
        ensures
            final(self).focused_idx == first_focusable_from(
                old(self).inputs@,
                if old(self).focused_idx + 1 < old(self).inputs@.len() {
                    old(self).focused_idx + 1
                } else {
                    old(self).inputs@.len() - 1
                },
            ),
            final(self).inputs@ == old(self).inputs@,
            final(self).same_layout(old(self)),
            final(self).spinners_equal(old(self)),
            final(self).focused_idx < final(self).inputs@.len(),
            !final(self).inputs@[final(self).focused_idx as int].is_separator(),
    {
        let n = self.inputs.len();
        let start = if self.focused_idx + 1 < n {
            self.focused_idx + 1
        } else {
            n - 1
        };
        let mut idx = start;
        while self.inputs[idx].is_separator_exec()
            invariant
                n == self.inputs@.len(),
                start <= idx < n,
                forall|t: int| start <= t < idx ==> #[trigger] self.inputs@[t].is_separator(),
                exists|j: int| start <= j < n && !self.inputs@[j].is_separator(),
            decreases n - idx,
        {
            if idx + 1 >= n {
                assert(false);
            }
            idx = idx + 1;
        }
        self.focused_idx = idx;
        proof {
            let inputs = self.inputs@;
            assert forall|j: int|
                start <= j < inputs.len() && !inputs[j].is_separator() && (forall|t: int|
                    start <= t < j ==> #[trigger] inputs[t].is_separator()) implies j == idx by {
                if j < idx {
                    assert(inputs[j].is_separator());
                } else if j > idx {
                    assert(inputs[idx as int].is_separator());
                }
            }
        }
    }

    /// Focuses the previous input that is not a separator, stopping at the
    /// start.
    pub fn prev_non_wrapping(&mut self)
        requires
            old(self).focused_idx < old(self).inputs@.len(),
            exists|j: int|
                0 <= j <= (if old(self).focused_idx > 0 {
                    old(self).focused_idx - 1
                } else {
                    0
                }) && !old(self).inputs@[j].is_separator(),
        ensures
            final(self).focused_idx == last_focusable_until(
                old(self).inputs@,
                if old(self).focused_idx > 0 {
                    old(self).focused_idx - 1
                } else {
                    0
                },
            ),
            final(self).inputs@ == old(self).inputs@,
            final(self).same_layout(old(self)),
            final(self).spinners_equal(old(self)),
            final(self).focused_idx < final(self).inputs@.len(),
            !final(self).inputs@[final(self).focused_idx as int].is_separator(),
    {
        let start = if self.focused_idx > 0 {
            self.focused_idx - 1
        } else {
            0
        };
        let mut idx = start;
        while self.inputs[idx].is_separator_exec()
            invariant
                idx <= start < self.inputs@.len(),
                forall|t: int| idx < t <= start ==> #[trigger] self.inputs@[t].is_separator(),
                exists|j: int| 0 <= j <= start && !self.inputs@[j].is_separator(),
            decreases idx,
        {
            if idx == 0 {
                assert(false);
            }
            idx = idx - 1;
        }
        self.focused_idx = idx;
        proof {
            let inputs = self.inputs@;
            assert forall|j: int|
                0 <= j <= start && !inputs[j].is_separator() && (forall|t: int|
                    j < t <= start ==> #[trigger] inputs[t].is_separator()) implies j == idx by {
                if j > idx {
                    assert(inputs[j].is_separator());
                } else if j < idx {
                    assert(inputs[idx as int].is_separator());
                }
            }
        }
    }

    /// Focuses the input in the row under `position`, unless the position is
    /// outside the column or the row is a separator or past the last input.
    pub fn focus_input_at(&mut self, position: Position)
        ensures
            final(self).inputs@ == old(self).inputs@,
            final(self).same_layout(old(self)),
            final(self).spinners_equal(old(self)),
            ({
                let y = position.y - old(self).area.y;
                if old(self).area.contains(position) && y < old(self).inputs@.len()
                    && !old(self).inputs@[y].is_separator() {
                    final(self).focused_idx == y
                } else {
                    final(self).focused_idx == old(self).focused_idx
                }
            }),
    {
        if !self.area.contains(position) {
            return ;
        }
        let y = (position.y - self.area.y) as usize;
        if y < self.inputs.len() && !self.inputs[y].is_separator_exec() {
            self.focused_idx = y;
        }
    }
}

/// Going round the column backwards from `i0` reaches an input that is not
/// a separator within one full turn.
proof fn lemma_wraps_back_to_every_index(inputs: Seq<InputType>, i0: int)
    requires
        0 <= i0 < inputs.len(),
        has_focusable(inputs),
    ensures
        exists|t: int| 1 <= t <= inputs.len() && !#[trigger] sep_before(inputs, i0, t),
{
    let n = inputs.len() as int;
    let j = choose|j: int| 0 <= j < n && !inputs[j].is_separator();
    let t = if j < i0 {
        i0 - j
    } else {
        i0 - j + n
    };
    assert((i0 - t + n) % n == j) by (nonlinear_arith)
        requires
            0 <= j < n,
            0 <= i0 < n,
            t == if j < i0 {
                i0 - j
            } else {
                i0 - j + n
            },
    ;
    assert(!sep_before(inputs, i0, t));
}

/// Going round the column from `i0` reaches an input that is not a
/// separator within one full turn.
proof fn lemma_wraps_to_every_index(inputs: Seq<InputType>, i0: int)
    requires
        0 <= i0 < inputs.len(),
        has_focusable(inputs),
    ensures
        exists|t: int| 1 <= t <= inputs.len() && !#[trigger] sep_after(inputs, i0, t),
{
    let n = inputs.len() as int;
    let j = choose|j: int| 0 <= j < n && !inputs[j].is_separator();
    let t = if j > i0 {
        j - i0
    } else {
        j - i0 + n
    };
    assert((i0 + t) % n == j) by (nonlinear_arith)
        requires
            0 <= j < n,
            0 <= i0 < n,
            t == if j > i0 {
                j - i0
            } else {
                j - i0 + n
            },
    ;
    assert(!sep_after(inputs, i0, t));
}

impl InputType {
    /// Whether this row is a separator.
    pub fn is_separator_exec(&self) -> (r: bool)
        ensures
            r == self.is_separator(),
    {
        match self {
            InputType::Separator => true,
            _ => false,
        }
    }
}

/// The result of activating an input: whether a search follows (when there
/// is no search button) or the column was reset.
pub open spec fn activation_result(inputs: Seq<InputType>, idx: int, search_button: bool) -> ActionResult {
    match inputs[idx] {
        InputType::Textbox(_) | InputType::Numberbox(_) | InputType::Spinner(_) => if search_button {
            ActionResult::NoAction
        } else {
            ActionResult::Search
        },
        InputType::Button(b) => if b.key == InputKey::Reset {
            ActionResult::Reset
        } else if b.key == InputKey::SearchButton {
            ActionResult::Search
        } else {
            ActionResult::NoAction
        },
        InputType::Separator => ActionResult::NoAction,
    }
}

/// The buffer change that resets a textbox: back to its initial value, or
/// empty.
pub open spec fn reset_command_of(input: TextboxInput) -> BufferCommand {
    match input.initial_value {
        Some(v) => BufferCommand::SetValue(input.buffer_id, v),
        None => BufferCommand::Clear(input.buffer_id),
    }
}

impl InputGroups {
    /// The spinner values are those the column started with.
    pub open spec fn spinners_reset(&self, before: &InputGroups) -> bool {
        &&& self.fold_case == before.initial_fold_case
        &&& self.strip_diacritics == before.initial_strip_diacritics
        &&& self.search_mode == SearchMode::Contains
        &&& self.rating_mode == RatingMode::Any
        &&& self.liked_mode == LikedMode::Any
    }

    /// Only the values of the spinners and the focus differ.
    pub open spec fn same_layout(&self, other: &InputGroups) -> bool {
        &&& self.inputs@ == other.inputs@
        &&& self.search_button == other.search_button
        &&& self.initial_fold_case == other.initial_fold_case
        &&& self.initial_strip_diacritics == other.initial_strip_diacritics
        &&& self.area == other.area
    }

    fn reset_textbox(input: &TextboxInput) -> (r: BufferCommand)
        ensures
            r == reset_command_of(*input),
    {
        match &input.initial_value {
            Some(v) => BufferCommand::SetValue(input.buffer_id, v.clone()),
            None => BufferCommand::Clear(input.buffer_id),
        }
    }

    /// Resets the input at `idx`: a textbox gets its initial value back (the
    /// returned buffer change), a spinner its initial value.
    pub fn reset_item(&mut self, idx: usize) -> (r: Option<BufferCommand>)
        ensures
            final(self).same_layout(old(self)),
            final(self).focused_idx == old(self).focused_idx,
            idx >= old(self).inputs@.len() ==> r is None && *final(self) == *old(self),
            idx < old(self).inputs@.len() ==> match old(self).inputs@[idx as int] {
                InputType::Textbox(t) | InputType::Numberbox(t) => r == Some(reset_command_of(t))
                    && final(self).spinners_equal(old(self)),
                InputType::Spinner(sp) => r is None && match sp.key {
                    InputKey::FoldCase => final(self).fold_case == old(self).initial_fold_case
                        && final(self).others_equal(old(self), sp.key),
                    InputKey::StripDiacritics => final(self).strip_diacritics == old(self).initial_strip_diacritics && final(self).others_equal(old(self), sp.key),
                    InputKey::SearchMode => final(self).search_mode == SearchMode::Contains
                        && final(self).others_equal(old(self), sp.key),
                    InputKey::RatingMode => final(self).rating_mode == RatingMode::Any
                        && final(self).others_equal(old(self), sp.key),
                    InputKey::Like => final(self).liked_mode == LikedMode::Any && final(self).others_equal(old(self), sp.key),
                    _ => final(self).spinners_equal(old(self)),
                },
                _ => r is None && final(self).spinners_equal(old(self)),
            },
    {
        if idx >= self.inputs.len() {
            return None;
        }
        let key = match &self.inputs[idx] {
            InputType::Textbox(input) | InputType::Numberbox(input) => {
                return Some(Self::reset_textbox(input));
            },
            InputType::Spinner(spinner) => spinner.key,
            _ => {
                return None;
            },
        };
        match key {
            InputKey::FoldCase => {
                self.fold_case = self.initial_fold_case;
            },
            InputKey::StripDiacritics => {
                self.strip_diacritics = self.initial_strip_diacritics;
            },
            InputKey::SearchMode => {
                self.search_mode = SearchMode::Contains;
            },
            InputKey::RatingMode => {
                self.rating_mode = RatingMode::Any;
            },
            InputKey::Like => {
                self.liked_mode = LikedMode::Any;
            },
            _ => {},
        }
        None
    }

    /// All spinner values are those of `other`.
    pub open spec fn spinners_equal(&self, other: &InputGroups) -> bool {
        &&& self.fold_case == other.fold_case
        &&& self.strip_diacritics == other.strip_diacritics
        &&& self.search_mode == other.search_mode
        &&& self.rating_mode == other.rating_mode
        &&& self.liked_mode == other.liked_mode
    }

    /// All spinner values but the one of `key` are those of `other`.
    pub open spec fn others_equal(&self, other: &InputGroups, key: InputKey) -> bool {
        &&& key != InputKey::FoldCase ==> self.fold_case == other.fold_case
        &&& key != InputKey::StripDiacritics ==> self.strip_diacritics == other.strip_diacritics
        &&& key != InputKey::SearchMode ==> self.search_mode == other.search_mode
        &&& key != InputKey::RatingMode ==> self.rating_mode == other.rating_mode
        &&& key != InputKey::Like ==> self.liked_mode == other.liked_mode
    }
}

/// The input is a spinner for `key`.
pub open spec fn is_spinner_for(input: InputType, key: InputKey) -> bool {
    input matches InputType::Spinner(sp) && sp.key == key
}

/// Some input of `inputs` is a spinner for `key`.
pub open spec fn has_spinner(inputs: Seq<InputType>, key: InputKey) -> bool {
    exists|i: int| 0 <= i < inputs.len() && is_spinner_for(#[trigger] inputs[i], key)
}

/// The spinner values of `after` are those of `before` after resetting the
/// spinners among `inputs`: each such spinner back at its initial value
/// (case and diacritics as configured, the search mode `Contains`, ratings
/// and likes `Any`), the values without a spinner there unchanged.
pub open spec fn spinners_reset_in(before: InputGroups, after: InputGroups, inputs: Seq<InputType>) -> bool {
    &&& after.fold_case == if has_spinner(inputs, InputKey::FoldCase) {
        before.initial_fold_case
    } else {
        before.fold_case
    }
    &&& after.strip_diacritics == if has_spinner(inputs, InputKey::StripDiacritics) {
        before.initial_strip_diacritics
    } else {
        before.strip_diacritics
    }
    &&& after.search_mode == if has_spinner(inputs, InputKey::SearchMode) {
        SearchMode::Contains
    } else {
        before.search_mode
    }
    &&& after.rating_mode == if has_spinner(inputs, InputKey::RatingMode) {
        RatingMode::Any
    } else {
        before.rating_mode
    }
    &&& after.liked_mode == if has_spinner(inputs, InputKey::Like) {
        LikedMode::Any
    } else {
        before.liked_mode
    }
}

/// The spinner values of `after` are those of `before` after every input
/// is reset.
pub open spec fn spinners_reset(before: InputGroups, after: InputGroups) -> bool {
    spinners_reset_in(before, after, before.inputs@)
}

proof fn lemma_has_spinner_step(inputs: Seq<InputType>, k: int, key: InputKey)
    requires
        0 <= k < inputs.len(),
    ensures
        has_spinner(inputs.take(k + 1), key) == (has_spinner(inputs.take(k), key) || is_spinner_for(
            inputs[k],
            key,
        )),
{
    if has_spinner(inputs.take(k + 1), key) {
        let t = inputs.take(k + 1);
        let i = choose|i: int| 0 <= i < t.len() && is_spinner_for(#[trigger] t[i], key);
        if i < k {
            assert(inputs.take(k)[i] == inputs[i]);
        }
    }
    if has_spinner(inputs.take(k), key) {
        let t = inputs.take(k);
        let i = choose|i: int| 0 <= i < t.len() && is_spinner_for(#[trigger] t[i], key);
        assert(inputs.take(k + 1)[i] == inputs[i]);
    }
    if is_spinner_for(inputs[k], key) {
        assert(inputs.take(k + 1)[k] == inputs[k]);
    }
}

/// The buffer changes that reset every textbox of `inputs`, in order.
pub open spec fn reset_commands(inputs: Seq<InputType>) -> Seq<BufferCommand>
    decreases inputs.len(),
{
    if inputs.len() == 0 {
        Seq::empty()
    } else {
        let init = reset_commands(inputs.drop_last());
        match inputs.last() {
            InputType::Textbox(t) | InputType::Numberbox(t) => init.push(reset_command_of(t)),
            _ => init,
        }
    }
}

/// What activating an input asks of the pane.
pub struct Activation {
    pub result: ActionResult,
    pub input: InputCommand,
    /// Buffer changes, when the column was reset.
    pub buffers: Vec<BufferCommand>,
}

/// The text input command that activating a textbox with buffer `id` gives:
/// leave editing when that buffer is being edited, start editing it when
/// nothing is, nothing otherwise.
pub open spec fn textbox_command(active_buffer: Option<u64>, id: u64) -> InputCommand {
    if active_buffer == Some(id) {
        InputCommand::NormalMode
    } else if active_buffer is None {
        InputCommand::InsertMode(id)
    } else {
        InputCommand::Nothing
    }
}

impl InputGroups {
    /// Resets every input: spinners to their initial values, textboxes by
    /// the returned buffer changes.
    pub fn reset_all(&mut self) -> (r: Vec<BufferCommand>)
        ensures
            final(self).same_layout(old(self)),
            final(self).focused_idx == old(self).focused_idx,
            r@ == reset_commands(old(self).inputs@),
            spinners_reset(*old(self), *final(self)),
    {
        let mut commands: Vec<BufferCommand> = Vec::new();
        let n = self.inputs.len();
        let ghost orig = *self;
        for idx in 0..n
            invariant
                n == self.inputs@.len(),
                self.same_layout(&orig),
                self.focused_idx == orig.focused_idx,
                commands@ == reset_commands(self.inputs@.take(idx as int)),
                spinners_reset_in(orig, *self, orig.inputs@.take(idx as int)),
        {
            assert(self.inputs@.take(idx + 1).drop_last() =~= self.inputs@.take(idx as int));
            assert(self.inputs@.take(idx + 1).last() == self.inputs@[idx as int]);
            proof {
                lemma_has_spinner_step(orig.inputs@, idx as int, InputKey::FoldCase);
                lemma_has_spinner_step(orig.inputs@, idx as int, InputKey::StripDiacritics);
                lemma_has_spinner_step(orig.inputs@, idx as int, InputKey::SearchMode);
                lemma_has_spinner_step(orig.inputs@, idx as int, InputKey::RatingMode);
                lemma_has_spinner_step(orig.inputs@, idx as int, InputKey::Like);
            }
            let c = self.reset_item(idx);
            match c {
                Some(cmd) => {
                    commands.push(cmd);
                },
                None => {},
            }
        }
        assert(self.inputs@.take(n as int) =~= self.inputs@);
        assert(orig.inputs@.take(n as int) =~= orig.inputs@);
        commands
    }

    /// What resetting the input at `idx` of `before` gives: `after`, and
    /// the buffer change `r`. A textbox gets its initial value back by the
    /// buffer change, a spinner its initial value; outside the inputs,
    /// nothing changes.
    pub open spec fn resets_item(before: InputGroups, after: InputGroups, idx: int, r: Option<BufferCommand>) -> bool {
        &&& after.same_layout(&before)
        &&& after.focused_idx == before.focused_idx
        &&& idx >= before.inputs@.len() ==> r is None && after == before
        &&& idx < before.inputs@.len() ==> match before.inputs@[idx] {
            InputType::Textbox(t) | InputType::Numberbox(t) => r == Some(reset_command_of(t))
                && after.spinners_equal(&before),
            InputType::Spinner(sp) => r is None && match sp.key {
                InputKey::FoldCase => after.fold_case == before.initial_fold_case
                    && after.others_equal(&before, sp.key),
                InputKey::StripDiacritics => after.strip_diacritics == before.initial_strip_diacritics
                    && after.others_equal(&before, sp.key),
                InputKey::SearchMode => after.search_mode == SearchMode::Contains
                    && after.others_equal(&before, sp.key),
                InputKey::RatingMode => after.rating_mode == RatingMode::Any
                    && after.others_equal(&before, sp.key),
                InputKey::Like => after.liked_mode == LikedMode::Any && after.others_equal(&before, sp.key),
                _ => after.spinners_equal(&before),
            },
            _ => r is None && after.spinners_equal(&before),
        }
    }

    /// Resets the focused input: a textbox gets its initial value back (the
    /// returned buffer change), a spinner its initial value.
    pub fn reset_focused(&mut self) -> (r: Option<BufferCommand>)
        ensures
            final(self).same_layout(old(self)),
            final(self).focused_idx == old(self).focused_idx,
            Self::resets_item(*old(self), *final(self), old(self).focused_idx as int, r),
    {
        self.reset_item(self.focused_idx)
    }

    /// The text input command that starts editing the focused input, when it
    /// is a textbox.
    pub fn enter_insert_mode(&self) -> (r: InputCommand)
        requires
            self.focused_idx < self.inputs@.len(),
        ensures
            r == match self.inputs@[self.focused_idx as int] {
                InputType::Textbox(t) | InputType::Numberbox(t) => InputCommand::InsertMode(
                    t.buffer_id,
                ),
                _ => InputCommand::Nothing,
            },
    {
        match &self.inputs[self.focused_idx] {
            InputType::Textbox(t) | InputType::Numberbox(t) => InputCommand::InsertMode(t.buffer_id),
            _ => InputCommand::Nothing,
        }
    }

    /// Activates the focused input, given the buffer being edited (if any):
    /// a textbox starts or stops editing, a spinner moves to its next value
    /// (case sensitivity and diacritics stay consistent: ignoring diacritics
    /// implies ignoring case), the reset button resets every input.
    pub fn activate_focused(&mut self, active_buffer: Option<u64>) -> (r: Activation)
        requires
            old(self).focused_idx < old(self).inputs@.len(),
        ensures
            final(self).same_layout(old(self)),
            final(self).focused_idx == old(self).focused_idx,
            (old(self).strip_diacritics ==> old(self).fold_case) && (old(self).initial_strip_diacritics
                ==> old(self).initial_fold_case) && has_spinner(old(self).inputs@, InputKey::StripDiacritics)
                == has_spinner(old(self).inputs@, InputKey::FoldCase) ==> (final(self).strip_diacritics
                ==> final(self).fold_case),
            r.result == activation_result(
                old(self).inputs@,
                old(self).focused_idx as int,
                old(self).search_button,
            ),
            match old(self).inputs@[old(self).focused_idx as int] {
                InputType::Textbox(t) | InputType::Numberbox(t) => r.input == textbox_command(
                    active_buffer,
                    t.buffer_id,
                ) && r.buffers@.len() == 0 && final(self).spinners_equal(old(self)),
                InputType::Spinner(sp) => r.input == InputCommand::Nothing && r.buffers@.len() == 0
                    && match sp.key {
                    InputKey::FoldCase => final(self).fold_case == !old(self).fold_case
                        && final(self).strip_diacritics == (old(self).strip_diacritics && !old(
                        self).fold_case) && final(self).search_mode == old(self).search_mode
                        && final(self).rating_mode == old(self).rating_mode && final(self).liked_mode
                        == old(self).liked_mode,
                    InputKey::StripDiacritics => final(self).strip_diacritics == !old(
                        self).strip_diacritics && final(self).fold_case == (old(self).fold_case
                        || !old(self).strip_diacritics) && final(self).search_mode == old(
                        self).search_mode && final(self).rating_mode == old(self).rating_mode
                        && final(self).liked_mode == old(self).liked_mode,
                    InputKey::SearchMode => final(self).search_mode == next_search_mode(
                        old(self).search_mode,
                    ) && final(self).others_equal(old(self), sp.key),
                    InputKey::RatingMode => final(self).rating_mode == next_rating_mode(
                        old(self).rating_mode,
                    ) && final(self).others_equal(old(self), sp.key),
                    InputKey::Like => final(self).liked_mode == next_liked_mode(
                        old(self).liked_mode,
                    ) && final(self).others_equal(old(self), sp.key),
                    _ => final(self).spinners_equal(old(self)),
                },
                InputType::Button(b) => r.input == InputCommand::Nothing && if b.key
                    == InputKey::Reset {
                    r.buffers@ == reset_commands(old(self).inputs@) && spinners_reset(*old(self), *final(self))
                } else {
                    r.buffers@.len() == 0 && final(self).spinners_equal(old(self))
                },
                InputType::Separator => r.input == InputCommand::Nothing && r.buffers@.len() == 0
                    && final(self).spinners_equal(old(self)),
            },
    {
        let after = if self.search_button {
            ActionResult::NoAction
        } else {
            ActionResult::Search
        };
        let idx = self.focused_idx;
        let key = match &self.inputs[idx] {
            InputType::Textbox(input) | InputType::Numberbox(input) => {
                let id = input.buffer_id;
                let cmd = match active_buffer {
                    Some(b) => if b == id {
                        InputCommand::NormalMode
                    } else {
                        InputCommand::Nothing
                    },
                    None => InputCommand::InsertMode(id),
                };
                return Activation { result: after, input: cmd, buffers: Vec::new() };
            },
            InputType::Spinner(spinner) => spinner.key,
            InputType::Button(button) => {
                if button.key == InputKey::Reset {
                    let buffers = self.reset_all();
                    return Activation {
                        result: ActionResult::Reset,
                        input: InputCommand::Nothing,
                        buffers,
                    };
                } else if button.key == InputKey::SearchButton {
                    return Activation {
                        result: ActionResult::Search,
                        input: InputCommand::Nothing,
                        buffers: Vec::new(),
                    };
                } else {
                    return Activation {
                        result: ActionResult::NoAction,
                        input: InputCommand::Nothing,
                        buffers: Vec::new(),
                    };
                }
            },
            InputType::Separator => {
                return Activation {
                    result: ActionResult::NoAction,
                    input: InputCommand::Nothing,
                    buffers: Vec::new(),
                };
            },
        };
        match key {
            InputKey::FoldCase => {
                self.fold_case = !self.fold_case;
                if !self.fold_case {
                    self.strip_diacritics = false;
                }
            },
            InputKey::StripDiacritics => {
                self.strip_diacritics = !self.strip_diacritics;
                if self.strip_diacritics {
                    self.fold_case = true;
                }
            },
            InputKey::SearchMode => {
                self.search_mode.cycle();
            },
            InputKey::RatingMode => {
                self.rating_mode.cycle();
            },
            InputKey::Like => {
                self.liked_mode.cycle();
            },
            _ => {},
        }
        Activation { result: after, input: InputCommand::Nothing, buffers: Vec::new() }
    }
}

/// The result a click on row `clicked_y` of a scrollbar `height` rows tall
/// jumps to, among `total` results: the last row means the last result;
/// otherwise the row's share of the bar, scaled to the results and
/// rounded down.
pub open spec fn scrollbar_target(clicked_y: int, height: int, total: int) -> int {
    let rows = if height > 0 {
        height - 1
    } else {
        0
    };
    let last = if total > 0 {
        total - 1
    } else {
        0
    };
    if clicked_y >= rows {
        last
    } else {
        let t = clicked_y * last / rows;
        if t < last {
            t
        } else {
            last
        }
    }
}

/// The result a pointer event on the results' scrollbar moves the cursor
/// to: only while the results are browsed, with a scrollbar configured
/// and drawn in `area`, for a left click or a drag (`pressed`) inside it;
/// `None` when the scrollbar does not take the event.
pub fn scrollbar_jump(phase: Phase, scrollbar_shown: bool, area: Option<Rect>, pressed: bool, pos: Position, total: usize) -> (r: Option<usize>)
    ensures
        r == (match area {
            Some(a) if phase is BrowseResults && scrollbar_shown && pressed && a.contains_spec(pos) => Some(
                scrollbar_target((pos.y - a.y) as int, a.height as int, total as int) as usize,
            ),
            _ => None,
        }),
{
    let browsing = match phase {
        Phase::BrowseResults { .. } => true,
        _ => false,
    };
    if !browsing || !scrollbar_shown || !pressed {
        return None;
    }
    match area {
        Some(a) => if a.contains(pos) {
            Some(scrollbar_target_index(pos.y - a.y, a.height, total))
        } else {
            None
        },
        None => None,
    }
}

/// The result a click on the scrollbar jumps to.
pub fn scrollbar_target_index(clicked_y: u16, height: u16, total: usize) -> (r: usize)
    ensures
        r == scrollbar_target(clicked_y as int, height as int, total as int),
        total > 0 ==> r < total,
{
    let rows: u16 = if height > 0 {
        height - 1
    } else {
        0
    };
    let last: usize = if total > 0 {
        total - 1
    } else {
        0
    };
    if clicked_y >= rows {
        return last;
    }
    let y = clicked_y as u128;
    let l = last as u128;
    let d = rows as u128;
    assert(y * l <= 0xffff * 0xffff_ffff_ffff_ffffu128) by (nonlinear_arith)
        requires
            y <= 0xffff,
            l <= 0xffff_ffff_ffff_ffff,
    ;
    let prod = y * l;
    let t = prod / d;
    assert(t <= l) by (nonlinear_arith)
        requires
            prod == y * l,
            t == prod / d,
            y < d,
            d >= 1,
    {
        let di = d as int;
        let li = l as int;
        let yi = y as int;
        assert(yi * li <= di * li);
        assert((di * li) / di == li);
        vstd::arithmetic::div_mod::lemma_div_is_ordered(yi * li, di * li, di);
    }
    if t < l {
        t as usize
    } else {
        last
    }
}

/// The actions the input column of the search pane reacts to.
#[derive(Clone, Copy, PartialEq, Eq, Structural, Debug)]
pub enum SearchColumnAction {
    Down,
    Up,
    /// Move to the results, when there are any.
    Right,
    Top,
    Bottom,
    /// Activate the focused input.
    Confirm,
    /// Start editing the focused textbox.
    FocusInput,
    /// Reset the focused input.
    Delete,
}

/// What the search pane asks of the rest of the client after an action on
/// its input column.
pub enum SearchColumnOutcome {
    /// Only the pane changed; draw it again.
    Redraw,
    /// An input was activated.
    Activated(Activation),
    /// The text input should change mode.
    Input(InputCommand),
    /// The focused textbox was reset.
    Buffer(Option<BufferCommand>),
}

/// The search pane: its phase, its input column, the songs the last search
/// found (with their marks and cursor), and the filter typed over them.
pub struct SearchPaneState {
    pub phase: Phase,
    pub inputs: InputGroups,
    pub results: QueueState,
    pub filter: Option<String>,
}

/// Where the non-wrapping moves of `inputs` from `focused` find an input to
/// stop at.
pub open spec fn can_step(inputs: Seq<InputType>, focused: int, down: bool) -> bool {
    if down {
        exists|j: int|
            (if focused + 1 < inputs.len() {
                focused + 1
            } else {
                inputs.len() - 1
            }) <= j < inputs.len() && !inputs[j].is_separator()
    } else {
        exists|j: int|
            0 <= j <= (if focused > 0 {
                focused - 1
            } else {
                0
            }) && !inputs[j].is_separator()
    }
}

impl SearchPaneState {
    /// Handles an action while the input column has the focus; `wrap`
    /// tells whether moving past an end wraps around, `active_buffer`
    /// which buffer the text input is editing, if any.
    pub fn handle_search_column(
        &mut self,
        action: SearchColumnAction,
        wrap: bool,
        active_buffer: Option<u64>,
    ) -> (r: SearchColumnOutcome)
        requires
            old(self).inputs.well_formed(),
            !wrap && action == SearchColumnAction::Down ==> can_step(
                old(self).inputs.inputs@,
                old(self).inputs.focused_idx as int,
                true,
            ),
            !wrap && action == SearchColumnAction::Up ==> can_step(
                old(self).inputs.inputs@,
                old(self).inputs.focused_idx as int,
                false,
            ),
        ensures
            final(self).inputs.same_layout(&old(self).inputs),
            final(self).results == old(self).results,
            final(self).filter == old(self).filter,
            match action {
                SearchColumnAction::Down => r is Redraw && final(self).phase == old(self).phase
                    && final(self).inputs.spinners_equal(&old(self).inputs) && if wrap {
                    final(self).inputs.focused_idx == next_focus(
                        old(self).inputs.inputs@,
                        old(self).inputs.focused_idx as int,
                    )
                } else {
                    final(self).inputs.focused_idx == first_focusable_from(
                        old(self).inputs.inputs@,
                        if old(self).inputs.focused_idx + 1 < old(self).inputs.inputs@.len() {
                            old(self).inputs.focused_idx + 1
                        } else {
                            old(self).inputs.inputs@.len() - 1
                        },
                    )
                },
                SearchColumnAction::Up => r is Redraw && final(self).phase == old(self).phase
                    && final(self).inputs.spinners_equal(&old(self).inputs) && if wrap {
                    final(self).inputs.focused_idx == prev_focus(
                        old(self).inputs.inputs@,
                        old(self).inputs.focused_idx as int,
                    )
                } else {
                    final(self).inputs.focused_idx == last_focusable_until(
                        old(self).inputs.inputs@,
                        if old(self).inputs.focused_idx > 0 {
                            old(self).inputs.focused_idx - 1
                        } else {
                            0
                        },
                    )
                },
                SearchColumnAction::Right => r is Redraw && final(self).inputs.focused_idx == old(self).inputs.focused_idx && final(self).inputs.spinners_equal(&old(self).inputs)
                    && final(self).phase == if old(self).results.items@.len() > 0 {
                    Phase::BrowseResults { filter_input_on: false }
                } else {
                    old(self).phase
                },
                SearchColumnAction::Top => r is Redraw && final(self).inputs.focused_idx == 0
                    && final(self).phase == old(self).phase && final(self).inputs.spinners_equal(
                    &old(self).inputs,
                ),
                SearchColumnAction::Bottom => r is Redraw && final(self).inputs.focused_idx == old(self).inputs.inputs@.len() - 1 && final(self).phase == old(self).phase
                    && final(self).inputs.spinners_equal(&old(self).inputs),
                SearchColumnAction::Confirm => final(self).phase == old(self).phase
                    && final(self).inputs.focused_idx == old(self).inputs.focused_idx && (r matches SearchColumnOutcome::Activated(a)
                    && a.result == activation_result(
                    old(self).inputs.inputs@,
                    old(self).inputs.focused_idx as int,
                    old(self).inputs.search_button,
                )),
                SearchColumnAction::FocusInput => final(self).phase == old(self).phase
                    && final(self).inputs.focused_idx == old(self).inputs.focused_idx
                    && final(self).inputs.spinners_equal(&old(self).inputs) && (r matches SearchColumnOutcome::Input(c)
                    && c == match old(self).inputs.inputs@[old(self).inputs.focused_idx as int] {
                    InputType::Textbox(t) | InputType::Numberbox(t) => InputCommand::InsertMode(
                        t.buffer_id,
                    ),
                    _ => InputCommand::Nothing,
                }),
                SearchColumnAction::Delete => final(self).phase == old(self).phase
                    && final(self).inputs.focused_idx == old(self).inputs.focused_idx && r is Buffer,
            },
    {
        match action {
            SearchColumnAction::Down => {
                if wrap {
                    self.inputs.next();
                } else {
                    self.inputs.next_non_wrapping();
                }
                SearchColumnOutcome::Redraw
            },
            SearchColumnAction::Up => {
                if wrap {
                    self.inputs.prev();
                } else {
                    self.inputs.prev_non_wrapping();
                }
                SearchColumnOutcome::Redraw
            },
            SearchColumnAction::Right => {
                if self.results.items.len() > 0 {
                    self.phase = Phase::BrowseResults { filter_input_on: false };
                }
                SearchColumnOutcome::Redraw
            },
            SearchColumnAction::Top => {
                self.inputs.first();
                SearchColumnOutcome::Redraw
            },
            SearchColumnAction::Bottom => {
                self.inputs.last();
                SearchColumnOutcome::Redraw
            },
            SearchColumnAction::Confirm => {
                let a = self.inputs.activate_focused(active_buffer);
                SearchColumnOutcome::Activated(a)
            },
            SearchColumnAction::FocusInput => SearchColumnOutcome::Input(
                self.inputs.enter_insert_mode(),
            ),
            SearchColumnAction::Delete => SearchColumnOutcome::Buffer(self.inputs.reset_focused()),
        }
    }
}

/// The label of a row: a space, the name padded with spaces to eighteen
/// characters, and a colon.
pub open spec fn padded_label(name: Seq<char>) -> Seq<char> {
    " "@ + name + spaces(if name.len() < 18 {
        (18 - name.len()) as nat
    } else {
        0
    }) + ":"@
}

/// The padded label of `name`.
pub fn label_for(name: &str) -> (r: String)
    ensures
        r@ == padded_label(name@),
{
    let n = to_chars(name).len();
    let pad = if n < 18 {
        18 - n
    } else {
        0
    };
    let mut r = String::from_str(" ");
    r.append(name);
    let sp = space_string(pad);
    r.append(sp.as_str());
    r.append(":");
    proof {
        reveal_strlit(" ");
        reveal_strlit(":");
    }
    r
}

/// The kind of a row and the input it is.
#[derive(Clone, Copy, PartialEq, Eq, Structural, Debug)]
pub enum RowShape {
    Textbox(InputKey),
    Numberbox(InputKey),
    Spinner(InputKey),
    Button(InputKey),
    Separator,
}

/// The kind of a row.
pub open spec fn shape(i: InputType) -> RowShape {
    match i {
        InputType::Textbox(t) => RowShape::Textbox(t.key),
        InputType::Numberbox(t) => RowShape::Numberbox(t.key),
        InputType::Spinner(sp) => RowShape::Spinner(sp.key),
        InputType::Button(b) => RowShape::Button(b.key),
        InputType::Separator => RowShape::Separator,
    }
}

/// The kinds of the rows of a column.
pub open spec fn shapes(s: Seq<InputType>) -> Seq<RowShape> {
    s.map_values(|i: InputType| shape(i))
}

/// The label of a row, if it has one.
pub open spec fn label_of(i: InputType) -> Seq<char> {
    match i {
        InputType::Textbox(t) => t.label@,
        InputType::Numberbox(t) => t.label@,
        InputType::Spinner(sp) => sp.label@,
        InputType::Button(b) => b.label@,
        InputType::Separator => Seq::empty(),
    }
}

/// The label of each fixed row.
pub open spec fn fixed_label(key: InputKey) -> Seq<char> {
    match key {
        InputKey::CustomQuery => padded_label("Query"@),
        InputKey::RatingMode => padded_label("Rating"@),
        InputKey::RatingValue => padded_label("Value"@),
        InputKey::Like => padded_label("Liked"@),
        InputKey::SearchMode => padded_label("Search mode"@),
        InputKey::FoldCase => padded_label("Case sensitive"@),
        InputKey::StripDiacritics => padded_label("Ignore diacritics"@),
        InputKey::Reset => " Reset"@,
        InputKey::SearchButton => " Search"@,
        _ => Seq::empty(),
    }
}

/// The rows of the column, in order: one textbox per searched tag; the
/// custom query; the rating filter and the like filter, when the daemon
/// keeps stickers; the search mode, case and diacritics spinners; the reset
/// button and, when asked for, the search button; separators between the
/// groups.
pub open spec fn expected_shapes(
    tags: nat,
    custom_query: bool,
    stickers: bool,
    strip: bool,
    search_button: bool,
) -> Seq<RowShape> {
    Seq::new(tags, |i: int| RowShape::Textbox(InputKey::Tag)) + (if custom_query {
        seq![RowShape::Separator, RowShape::Textbox(InputKey::CustomQuery)]
    } else {
        Seq::empty()
    }) + (if stickers {
        seq![
            RowShape::Separator,
            RowShape::Spinner(InputKey::RatingMode),
            RowShape::Numberbox(InputKey::RatingValue),
            RowShape::Separator,
            RowShape::Spinner(InputKey::Like),
        ]
    } else {
        Seq::empty()
    }) + seq![
        RowShape::Separator,
        RowShape::Spinner(InputKey::SearchMode),
        RowShape::Spinner(InputKey::FoldCase),
    ] + (if strip {
        seq![RowShape::Spinner(InputKey::StripDiacritics)]
    } else {
        Seq::empty()
    }) + seq![RowShape::Separator, RowShape::Button(InputKey::Reset)] + (if search_button {
        seq![RowShape::Button(InputKey::SearchButton)]
    } else {
        Seq::empty()
    })
}

/// A searched tag: its label and the tag's name.
pub struct SearchTag {
    pub label: String,
    pub value: String,
}

/// The row is the textbox of a searched tag, with buffer `id`.
pub open spec fn is_tag_row(row: InputType, tag: SearchTag, id: int) -> bool {
    row matches InputType::Textbox(t) && t.key == InputKey::Tag && t.label@ == padded_label(tag.label@) && opt_view(
        t.filter_key,
    ) == Some(tag.value@) && t.initial_value is None && t.buffer_id == id
}

/// What the column needs from the configuration.
pub struct SearchConfig {
    pub tags: Vec<SearchTag>,
    pub mode: SearchMode,
}

fn spinner(key: InputKey, name: &str) -> (r: InputType)
    ensures
        shape(r) == RowShape::Spinner(key),
        label_of(r) == padded_label(name@),
{
    InputType::Spinner(SpinnerInput { key, label: label_for(name) })
}

/// Every row that is not a separator carries the label of its input.
pub open spec fn fixed_rows(s: Seq<InputType>) -> bool {
    forall|k: int|
        0 <= k < s.len() && !s[k].is_separator() ==> label_of(#[trigger] s[k]) == fixed_label(
            shape_key(shape(s[k])),
        )
}

proof fn lemma_join_rows(a: Seq<InputType>, b: Seq<InputType>)
    ensures
        shapes(a + b) == shapes(a) + shapes(b),
        fixed_rows(a) && fixed_rows(b) ==> fixed_rows(a + b),
{
    assert(shapes(a + b) =~= shapes(a) + shapes(b));
    if fixed_rows(a) && fixed_rows(b) {
        assert forall|k: int|
            0 <= k < (a + b).len() && !(a + b)[k].is_separator() implies label_of(
            #[trigger] (a + b)[k],
        ) == fixed_label(shape_key(shape((a + b)[k]))) by {
            if k >= a.len() {
                assert((a + b)[k] == b[k - a.len()]);
            }
        }
    }
}

fn tag_rows(config: &SearchConfig, first_buffer_id: u64) -> (r: Vec<InputType>)
    requires
        first_buffer_id + config.tags@.len() <= u64::MAX,
    ensures
        shapes(r@) == Seq::new(config.tags@.len(), |i: int| RowShape::Textbox(InputKey::Tag)),
        forall|k: int|
            0 <= k < config.tags@.len() ==> is_tag_row(
                #[trigger] r@[k],
                config.tags@[k],
                first_buffer_id + k,
            ),
        r@.len() == config.tags@.len(),
{
    let mut inputs: Vec<InputType> = Vec::new();
    let ntags = config.tags.len();
    for k in 0..ntags
        invariant
            ntags == config.tags@.len(),
            first_buffer_id + ntags <= u64::MAX,
            inputs@.len() == k,
            forall|q: int| 0 <= q < k ==> is_tag_row(#[trigger] inputs@[q], config.tags@[q], first_buffer_id + q),
    {
        let tag = &config.tags[k];
        inputs.push(
            InputType::Textbox(
                TextboxInput {
                    label: label_for(tag.label.as_str()),
                    key: InputKey::Tag,
                    filter_key: Some(tag.value.clone()),
                    initial_value: None,
                    buffer_id: first_buffer_id + k as u64,
                },
            ),
        );
        assert(is_tag_row(inputs@[k as int], config.tags@[k as int], first_buffer_id + k));
    }
    assert(shapes(inputs@) =~= Seq::new(ntags as nat, |i: int| RowShape::Textbox(InputKey::Tag))) by {
        assert forall|q: int| 0 <= q < ntags implies shapes(inputs@)[q] == RowShape::Textbox(
            InputKey::Tag,
        ) by {
            assert(is_tag_row(inputs@[q], config.tags@[q], first_buffer_id + q));
            assert(shapes(inputs@)[q] == shape(inputs@[q]));
        }
    }
    inputs
}

fn query_rows(id: u64) -> (r: Vec<InputType>)
    ensures
        shapes(r@) == seq![RowShape::Separator, RowShape::Textbox(InputKey::CustomQuery)],
        fixed_rows(r@),
        r@[1] matches InputType::Textbox(t) && t.buffer_id == id && t.initial_value is None,
{
    let r = vec![
        InputType::Separator,
        InputType::Textbox(
            TextboxInput {
                label: label_for("Query"),
                key: InputKey::CustomQuery,
                filter_key: None,
                initial_value: None,
                buffer_id: id,
            },
        ),
    ];
    assert(shapes(r@) =~= seq![RowShape::Separator, RowShape::Textbox(InputKey::CustomQuery)]);
    r
}

fn sticker_rows(id: u64) -> (r: Vec<InputType>)
    ensures
        shapes(r@) == seq![
            RowShape::Separator,
            RowShape::Spinner(InputKey::RatingMode),
            RowShape::Numberbox(InputKey::RatingValue),
            RowShape::Separator,
            RowShape::Spinner(InputKey::Like),
        ],
        fixed_rows(r@),
        r@[2] matches InputType::Numberbox(t) && t.buffer_id == id && opt_view(t.initial_value)
            == Some("0"@),
{
    let r = vec![
        InputType::Separator,
        spinner(InputKey::RatingMode, "Rating"),
        InputType::Numberbox(
            TextboxInput {
                label: label_for("Value"),
                key: InputKey::RatingValue,
                filter_key: None,
                initial_value: Some(String::from_str("0")),
                buffer_id: id,
            },
        ),
        InputType::Separator,
        spinner(InputKey::Like, "Liked"),
    ];
    proof {
        reveal_strlit("0");
    }
    assert(shapes(r@) =~= seq![
        RowShape::Separator,
        RowShape::Spinner(InputKey::RatingMode),
        RowShape::Numberbox(InputKey::RatingValue),
        RowShape::Separator,
        RowShape::Spinner(InputKey::Like),
    ]);
    r
}

fn mode_rows(strip: bool) -> (r: Vec<InputType>)
    ensures
        shapes(r@) == seq![
            RowShape::Separator,
            RowShape::Spinner(InputKey::SearchMode),
            RowShape::Spinner(InputKey::FoldCase),
        ] + (if strip {
            seq![RowShape::Spinner(InputKey::StripDiacritics)]
        } else {
            Seq::empty()
        }),
        fixed_rows(r@),
{
    let mut r = vec![
        InputType::Separator,
        spinner(InputKey::SearchMode, "Search mode"),
        spinner(InputKey::FoldCase, "Case sensitive"),
    ];
    if strip {
        r.push(spinner(InputKey::StripDiacritics, "Ignore diacritics"));
    }
    assert(shapes(r@) =~= seq![
        RowShape::Separator,
        RowShape::Spinner(InputKey::SearchMode),
        RowShape::Spinner(InputKey::FoldCase),
    ] + (if strip {
        seq![RowShape::Spinner(InputKey::StripDiacritics)]
    } else {
        Seq::empty()
    }));
    r
}

fn button_rows(search_button: bool) -> (r: Vec<InputType>)
    ensures
        shapes(r@) == seq![RowShape::Separator, RowShape::Button(InputKey::Reset)] + (if search_button {
            seq![RowShape::Button(InputKey::SearchButton)]
        } else {
            Seq::empty()
        }),
        fixed_rows(r@),
        !r@[1].is_separator(),
{
    let mut r = vec![
        InputType::Separator,
        InputType::Button(ButtonInput { key: InputKey::Reset, label: String::from_str(" Reset") }),
    ];
    if search_button {
        r.push(
            InputType::Button(
                ButtonInput { key: InputKey::SearchButton, label: String::from_str(" Search") },
            ),
        );
    }
    proof {
        reveal_strlit(" Reset");
        reveal_strlit(" Search");
    }
    assert(shapes(r@) =~= seq![RowShape::Separator, RowShape::Button(InputKey::Reset)] + (
    if search_button {
        seq![RowShape::Button(InputKey::SearchButton)]
    } else {
        Seq::empty()
    }));
    r
}

impl InputGroups {
    /// Builds the column for a configuration. Textboxes take buffer ids
    /// from `first_buffer_id` on, in row order; the buffers that must be
    /// created beforehand (the custom query's, empty, and the rating
    /// value's, holding `0`) are returned with the column.
    #[verifier::rlimit(50)]
    pub fn new(
        config: &SearchConfig,
        initial_fold_case: bool,
        initial_strip_diacritics: bool,
        search_button: bool,
        custom_query: bool,
        stickers_supported: bool,
        strip_diacritics_supported: bool,
        first_buffer_id: u64,
    ) -> (r: (InputGroups, Vec<(u64, Option<String>)>))
        requires
            first_buffer_id + config.tags@.len() + 2 <= u64::MAX,
        ensures
            shapes(r.0.inputs@) == expected_shapes(
                config.tags@.len(),
                custom_query,
                stickers_supported,
                strip_diacritics_supported,
                search_button,
            ),
            forall|k: int|
                0 <= k < config.tags@.len() ==> is_tag_row(
                    #[trigger] r.0.inputs@[k],
                    config.tags@[k],
                    first_buffer_id + k,
                ),
            fixed_rows(r.0.inputs@.skip(config.tags@.len() as int)),
            r.0.focused_idx == 0,
            r.0.well_formed(),
            r.0.search_button == search_button,
            r.0.initial_fold_case == initial_fold_case,
            r.0.initial_strip_diacritics == initial_strip_diacritics,
            r.0.fold_case == initial_fold_case,
            r.0.strip_diacritics == initial_strip_diacritics,
            r.0.search_mode == config.mode,
            r.0.rating_mode == RatingMode::Any,
            r.0.liked_mode == LikedMode::Any,
            r.0.area == (Rect { x: 0, y: 0, width: 0, height: 0 }),
            r.1@.len() == (if custom_query {
                1int
            } else {
                0
            }) + (if stickers_supported {
                1int
            } else {
                0
            }),
            custom_query ==> r.1@[0].0 == first_buffer_id + config.tags@.len() && r.1@[0].1 is None,
            stickers_supported ==> r.1@[r.1@.len() - 1].0 == first_buffer_id + config.tags@.len() + 1
                && opt_view(r.1@[r.1@.len() - 1].1) == Some("0"@),
    {
        let ntags = config.tags.len();
        let mut inputs = tag_rows(config, first_buffer_id);
        let ghost tags_part = inputs@;
        let next_id = first_buffer_id + ntags as u64;
        let mut rest: Vec<InputType> = Vec::new();
        let mut buffers: Vec<(u64, Option<String>)> = Vec::new();
        assert(fixed_rows(rest@));
        assert(shapes(rest@) =~= Seq::<RowShape>::empty());
        if custom_query {
            let mut q = query_rows(next_id);
            proof {
                lemma_join_rows(rest@, q@);
            }
            rest.append(&mut q);
            buffers.push((next_id, None));
        }
        let ghost after_query = rest@;
        if stickers_supported {
            let mut q = sticker_rows(next_id + 1);
            proof {
                lemma_join_rows(rest@, q@);
            }
            rest.append(&mut q);
            buffers.push((next_id + 1, Some(String::from_str("0"))));
            proof {
                reveal_strlit("0");
            }
        }
        let mut m = mode_rows(strip_diacritics_supported);
        proof {
            lemma_join_rows(rest@, m@);
        }
        rest.append(&mut m);
        let mut b = button_rows(search_button);
        let ghost before_buttons = rest@;
        proof {
            lemma_join_rows(rest@, b@);
        }
        rest.append(&mut b);
        let ghost rest_rows = rest@;
        proof {
            lemma_join_rows(inputs@, rest@);
        }
        inputs.append(&mut rest);
        proof {
            assert(inputs@.skip(ntags as int) =~= rest_rows);
            assert forall|k: int| 0 <= k < ntags implies is_tag_row(
                #[trigger] inputs@[k],
                config.tags@[k],
                first_buffer_id + k,
            ) by {
                assert(inputs@[k] == tags_part[k]);
            }
            let reset_at: int = ntags + before_buttons.len() + 1;
            assert(inputs@[reset_at] == rest_rows[before_buttons.len() + 1int]);
            assert(!inputs@[reset_at].is_separator());
            assert(shapes(inputs@) =~= expected_shapes(
                ntags as nat,
                custom_query,
                stickers_supported,
                strip_diacritics_supported,
                search_button,
            ));
        }
        let groups = InputGroups {
            inputs,
            search_button,
            initial_fold_case,
            initial_strip_diacritics,
            focused_idx: 0,
            area: Rect { x: 0, y: 0, width: 0, height: 0 },
            fold_case: initial_fold_case,
            strip_diacritics: initial_strip_diacritics,
            search_mode: config.mode,
            rating_mode: RatingMode::Any,
            liked_mode: LikedMode::Any,
        };
        (groups, buffers)
    }
}

/// The input a row shape names.
pub open spec fn shape_key(s: RowShape) -> InputKey {
    match s {
        RowShape::Textbox(k) => k,
        RowShape::Numberbox(k) => k,
        RowShape::Spinner(k) => k,
        RowShape::Button(k) => k,
        RowShape::Separator => InputKey::Tag,
    }
}

/// The first position of `files` holding `file`.
pub open spec fn first_position(files: Seq<Seq<char>>, file: Seq<char>) -> Option<usize>
    decreases files.len(),
{
    if files.len() == 0 {
        None
    } else {
        match first_position(files.drop_last(), file) {
            Some(k) => Some(k),
            None => if files.last() == file {
                Some((files.len() - 1) as usize)
            } else {
                None
            },
        }
    }
}

/// The files of the chosen rows of the results.
pub open spec fn chosen_files(results: QueueState, all: bool) -> Seq<Seq<char>> {
    let rows = chosen_rows(all, results.items@.len() as int, results.marked@, results.selected);
    rows.map_values(|r: usize| results.items@[r as int].file@)
}

/// The files an action on the results takes (every result, or else the
/// marked ones, or else the one under the cursor), and the first place
/// among them of the file under the cursor.
pub fn results_enqueue(results: &QueueState, all: bool) -> (r: (Option<usize>, Vec<String>))
    requires
        results.well_formed(),
    ensures
        views(r.1@) == chosen_files(*results, all),
        r.0 == match results.selected {
            Some(s) => first_position(chosen_files(*results, all), results.items@[s as int].file@),
            None => None,
        },
{
    let rows = results.rows(all);
    let mut files: Vec<String> = Vec::new();
    let mut hovered: Option<usize> = None;
    let ghost target = chosen_files(*results, all);
    for k in 0..rows.len()
        invariant
            rows@ == chosen_rows(all, results.items@.len() as int, results.marked@, results.selected),
            crate::queue::all_below(rows@, results.items@.len() as int),
            target == chosen_files(*results, all),
            views(files@) == target.take(k as int),
            hovered == match results.selected {
                Some(s) => first_position(target.take(k as int), results.items@[s as int].file@),
                None => None,
            },
            results.well_formed(),
    {
        let idx = rows[k];
        let f = results.items[idx].file.clone();
        assert(target.take(k + 1).drop_last() =~= target.take(k as int));
        match results.selected {
            Some(s) => {
                if hovered.is_none() && str_equals(f.as_str(), results.items[s].file.as_str()) {
                    hovered = Some(k);
                }
            },
            None => {},
        }
        files.push(f);
        assert(views(files@) =~= target.take(k + 1));
    }
    assert(target.take(rows@.len() as int) =~= target);
    (hovered, files)
}

/// The actions the results column reacts to.
#[derive(Clone, Copy, PartialEq, Eq, Structural, Debug)]
pub enum ResultsAction {
    Down,
    Up,
    /// Enqueue the song under the cursor.
    Right,
    /// Back to the input column.
    Left,
    Top,
    Bottom,
    /// Start typing a filter over the results.
    EnterSearch,
    /// Mark or unmark the song under the cursor and move down.
    Select,
    InvertSelection,
    /// Unmark everything, when something is marked.
    Close,
    /// Replace the queue by the results and play from the one under the
    /// cursor, when nothing is marked.
    Confirm,
    /// Rate the chosen songs.
    Rate(u8),
    Like,
    Neutral,
    Dislike,
}

/// The stickers the results column writes.
#[derive(Clone, Copy, PartialEq, Eq, Structural, Debug)]
pub enum StickerName {
    Rating,
    Like,
}

/// What the search pane asks of the rest of the client after an action on
/// its results.
pub enum ResultsOutcome {
    /// Only the pane changed.
    Redraw,
    /// Nothing to do.
    Nothing,
    /// Enqueue these files: replacing the queue and playing from `hovered`,
    /// or at the end of the queue.
    Enqueue { files: Vec<String>, replace: bool, hovered: Option<usize> },
    /// Set a sticker to a value on these files.
    SetSticker { name: StickerName, value: String, files: Vec<String> },
}

/// The decimal text of a rating.
pub(crate) fn rating_text(v: u8) -> (r: String)
    ensures
        r@ == crate::text::decimal(v as nat),
{
    let c = crate::text::decimal_chars(v as u64);
    crate::text::chars_to_string(c.as_slice())
}

impl SearchPaneState {
    /// Handles an action while the results have the focus; `wrap` tells
    /// whether moving past an end wraps around.
    pub fn handle_results(&mut self, action: ResultsAction, wrap: bool) -> (r: ResultsOutcome)
        requires
            old(self).results.well_formed(),
        ensures
            final(self).results.well_formed(),
            final(self).results.items@ == old(self).results.items@,
            final(self).inputs == old(self).inputs,
            match action {
                ResultsAction::Down => r is Redraw && final(self).results.selected == crate::queue::row_after(
                    old(self).results.selected,
                    old(self).results.items@.len() as int,
                    wrap,
                ) && final(self).results.marked@ == old(self).results.marked@,
                ResultsAction::Up => r is Redraw && final(self).results.selected == crate::queue::row_before(
                    old(self).results.selected,
                    old(self).results.items@.len() as int,
                    wrap,
                ) && final(self).results.marked@ == old(self).results.marked@,
                ResultsAction::Right => final(self).results == old(self).results && match old(self).results.selected {
                    Some(s) => (r matches ResultsOutcome::Enqueue { files, replace, hovered }
                        && !replace && hovered is None && views(files@) == seq![
                        old(self).results.items@[s as int].file@,
                    ]),
                    None => r is Nothing,
                },
                ResultsAction::Left => r is Redraw && final(self).phase == Phase::Search
                    && final(self).results == old(self).results,
                ResultsAction::EnterSearch => r is Redraw && final(self).phase
                    == Phase::BrowseResults { filter_input_on: true } && opt_view(final(self).filter)
                    == Some(Seq::<char>::empty()) && final(self).results == old(self).results,
                ResultsAction::Close => r is Redraw && final(self).results.marked@.len() == 0
                    && final(self).results.selected == old(self).results.selected,
                ResultsAction::Confirm => final(self).results == old(self).results && if old(self).results.marked@.len() == 0 && old(self).results.items@.len() > 0 {
                    (r matches ResultsOutcome::Enqueue { files, replace, hovered } && replace
                        && views(files@) == chosen_files(old(self).results, true) && hovered == match old(self).results.selected {
                        Some(s) => first_position(
                            chosen_files(old(self).results, true),
                            old(self).results.items@[s as int].file@,
                        ),
                        None => None,
                    })
                } else {
                    r is Redraw
                },
                ResultsAction::Rate(v) => final(self).results == old(self).results && (r matches ResultsOutcome::SetSticker { name, value, files }
                    && name == StickerName::Rating && value@ == crate::text::decimal(v as nat)
                    && views(files@) == chosen_files(old(self).results, false)),
                ResultsAction::Like | ResultsAction::Neutral | ResultsAction::Dislike => final(self).results == old(self).results && (r matches ResultsOutcome::SetSticker { name, value, files }
                    && name == StickerName::Like && value@ == (match action {
                    ResultsAction::Like => "2"@,
                    ResultsAction::Neutral => "1"@,
                    _ => "0"@,
                }) && views(files@) == chosen_files(old(self).results, false)),
                ResultsAction::Top => r is Redraw && final(self).results.marked@ == old(self).results.marked@
                    && final(self).results.selected == if old(self).results.items@.len() == 0 {
                    old(self).results.selected
                } else {
                    Some(0usize)
                },
                ResultsAction::Bottom => r is Redraw && final(self).results.marked@ == old(self).results.marked@
                    && final(self).results.selected == if old(self).results.items@.len() == 0 {
                    old(self).results.selected
                } else {
                    Some((old(self).results.items@.len() - 1) as usize)
                },
                ResultsAction::Select => r is Redraw && final(self).results.selected == crate::queue::row_after(
                    old(self).results.selected,
                    old(self).results.items@.len() as int,
                    wrap,
                ) && match old(self).results.selected {
                    Some(s) => forall|x: usize|
                        final(self).results.marked@.contains(x) <==> (old(self).results.marked@.contains(x) != (x == s)),
                    None => final(self).results.marked@ == old(self).results.marked@,
                },
                ResultsAction::InvertSelection => r is Redraw && final(self).results.selected == old(self).results.selected
                    && final(self).results.marked@ == crate::queue::unmarked_below(
                    old(self).results.marked@,
                    old(self).results.items@.len() as int,
                ),
            },
            !(action is Left || action is EnterSearch) ==> final(self).phase == old(self).phase
                && final(self).filter == old(self).filter,
    {
        match action {
            ResultsAction::Down => {
                self.results.select_next(wrap);
                ResultsOutcome::Redraw
            },
            ResultsAction::Up => {
                self.results.select_prev(wrap);
                ResultsOutcome::Redraw
            },
            ResultsAction::Right => match self.results.selected {
                Some(s) => {
                    let files = vec![self.results.items[s].file.clone()];
                    assert(views(files@) =~= seq![self.results.items@[s as int].file@]);
                    ResultsOutcome::Enqueue { files, replace: false, hovered: None }
                },
                None => ResultsOutcome::Nothing,
            },
            ResultsAction::Left => {
                self.phase = Phase::Search;
                ResultsOutcome::Redraw
            },
            ResultsAction::Top => {
                self.results.select_end(false);
                ResultsOutcome::Redraw
            },
            ResultsAction::Bottom => {
                self.results.select_end(true);
                ResultsOutcome::Redraw
            },
            ResultsAction::EnterSearch => {
                self.filter = Some(String::new());
                self.phase = Phase::BrowseResults { filter_input_on: true };
                proof {
                    reveal_strlit("");
                }
                ResultsOutcome::Redraw
            },
            ResultsAction::Select => {
                self.results.toggle_mark_selected();
                self.results.select_next(wrap);
                ResultsOutcome::Redraw
            },
            ResultsAction::InvertSelection => {
                self.results.invert_marked();
                ResultsOutcome::Redraw
            },
            ResultsAction::Close => {
                self.results.clear_marked();
                ResultsOutcome::Redraw
            },
            ResultsAction::Confirm => {
                if self.results.marked.len() == 0 && self.results.items.len() > 0 {
                    let (hovered, files) = results_enqueue(&self.results, true);
                    ResultsOutcome::Enqueue { files, replace: true, hovered }
                } else {
                    ResultsOutcome::Redraw
                }
            },
            ResultsAction::Rate(v) => {
                let (_, files) = results_enqueue(&self.results, false);
                ResultsOutcome::SetSticker { name: StickerName::Rating, value: rating_text(v), files }
            },
            ResultsAction::Like | ResultsAction::Neutral | ResultsAction::Dislike => {
                let (_, files) = results_enqueue(&self.results, false);
                let value = match action {
                    ResultsAction::Like => String::from_str("2"),
                    ResultsAction::Neutral => String::from_str("1"),
                    _ => String::from_str("0"),
                };
                proof {
                    reveal_strlit("2");
                    reveal_strlit("1");
                    reveal_strlit("0");
                }
                ResultsOutcome::SetSticker { name: StickerName::Like, value, files }
            },
        }
    }
}

/// A key typed while the filter over the results is being edited.
#[derive(Clone, Copy, PartialEq, Eq, Structural, Debug)]
pub enum FilterKey {
    /// Drop the filter and stop editing.
    Close,
    /// Keep the filter and stop editing.
    Confirm,
    Char(char),
    Backspace,
    Other,
}

/// The text of a filter, empty when there is none.
pub open spec fn filter_text(f: Option<String>) -> Seq<char> {
    match f {
        Some(s) => s@,
        None => Seq::empty(),
    }
}

impl SearchPaneState {
    /// Handles a key while the filter over the results is being edited;
    /// tells whether the cursor should jump to the first matching result.
    pub fn handle_filter_key(&mut self, key: FilterKey) -> (jump: bool)
        requires
            old(self).phase is BrowseResults,
        ensures
            final(self).results == old(self).results,
            final(self).inputs == old(self).inputs,
            jump == key is Char,
            match key {
                FilterKey::Close => final(self).phase == Phase::BrowseResults { filter_input_on: false }
                    && final(self).filter is None,
                FilterKey::Confirm => final(self).phase == Phase::BrowseResults { filter_input_on: false }
                    && final(self).filter == old(self).filter,
                FilterKey::Char(c) => final(self).phase == old(self).phase && opt_view(final(self).filter)
                    == Some(filter_text(old(self).filter).push(c)),
                FilterKey::Backspace => final(self).phase == old(self).phase && match old(self).filter {
                    None => final(self).filter is None,
                    Some(f) => opt_view(final(self).filter) == Some(if f@.len() > 0 {
                        f@.drop_last()
                    } else {
                        f@
                    }),
                },
                FilterKey::Other => final(self).phase == old(self).phase && final(self).filter == old(
                    self).filter,
            },
    {
        match key {
            FilterKey::Close => {
                self.phase = Phase::BrowseResults { filter_input_on: false };
                self.filter = None;
                false
            },
            FilterKey::Confirm => {
                self.phase = Phase::BrowseResults { filter_input_on: false };
                false
            },
            FilterKey::Char(c) => {
                let mut chars = match &self.filter {
                    Some(f) => to_chars(f.as_str()),
                    None => Vec::new(),
                };
                chars.push(c);
                self.filter = Some(crate::text::chars_to_string(chars.as_slice()));
                true
            },
            FilterKey::Backspace => {
                match &self.filter {
                    Some(f) => {
                        let mut chars = to_chars(f.as_str());
                        if chars.len() > 0 {
                            chars.pop();
                        }
                        self.filter = Some(crate::text::chars_to_string(chars.as_slice()));
                    },
                    None => {},
                }
                false
            },
            FilterKey::Other => false,
        }
    }
}

/// What the mouse did.
#[derive(Clone, Copy, PartialEq, Eq, Structural, Debug)]
pub enum MouseKind {
    LeftClick,
    DoubleClick,
    MiddleClick,
    RightClick,
    ScrollDown,
    ScrollUp,
    Other,
}

/// Where the three columns of the pane were drawn: the inputs (while the
/// results have focus), the focused column, and the preview.
#[derive(Clone, Copy, PartialEq, Eq, Structural, Debug)]
pub struct ColumnAreas {
    pub previous: Rect,
    pub current: Rect,
    pub preview: Rect,
}

/// What the search pane asks of the rest of the client after a mouse event.
pub enum MouseOutcome {
    Redraw,
    Nothing,
    /// Search with the inputs as they are, then draw.
    SearchThenRedraw,
    /// Enqueue these files at the end of the queue.
    Enqueue(Vec<String>),
    /// Add this file to the queue.
    Add(String),
    /// Open the context menu of the results.
    ContextMenu,
}

/// The result drawn at row `row` of a column whose first drawn result is
/// `first_visible`, if any.
pub open spec fn result_at_row(first_visible: int, row: int, n: int) -> Option<usize> {
    if first_visible + row < n {
        Some((first_visible + row) as usize)
    } else {
        None
    }
}

fn row_in(area: Rect, y: u16) -> (r: usize)
    ensures
        r == (if y >= area.y {
            y - area.y
        } else {
            0
        }),
{
    if y >= area.y {
        (y - area.y) as usize
    } else {
        0
    }
}

impl SearchPaneState {
    /// Handles a mouse event at `pos`; `first_visible` is the first result
    /// drawn in the results column, `insert_mode` whether a textbox is
    /// being edited.
    pub fn handle_mouse(
        &mut self,
        kind: MouseKind,
        pos: Position,
        areas: ColumnAreas,
        first_visible: usize,
        insert_mode: bool,
    ) -> (r: MouseOutcome)
        requires
            old(self).results.well_formed(),
            old(self).inputs.well_formed(),
            kind == MouseKind::ScrollDown && !(old(self).phase is BrowseResults) ==> can_step(
                old(self).inputs.inputs@,
                old(self).inputs.focused_idx as int,
                true,
            ),
            kind == MouseKind::ScrollUp && !(old(self).phase is BrowseResults) ==> can_step(
                old(self).inputs.inputs@,
                old(self).inputs.focused_idx as int,
                false,
            ),
            first_visible + 0x10000 <= usize::MAX,
        ensures
            final(self).results.items@ == old(self).results.items@,
            final(self).results.well_formed(),
            final(self).inputs.inputs@ == old(self).inputs.inputs@,
            kind == MouseKind::LeftClick && areas.previous.contains(pos) ==> r is Redraw
                && final(self).phase == Phase::Search,
            kind == MouseKind::LeftClick && !areas.previous.contains(pos) && areas.preview.contains(
                pos,
            ) && old(self).phase is Search ==> if old(self).results.items@.len() > 0 {
                r is Redraw && final(self).phase == Phase::BrowseResults { filter_input_on: false }
                    && final(self).results.selected == match result_at_row(
                    first_visible as int,
                    pos.y - areas.preview.y,
                    old(self).results.items@.len() as int,
                ) {
                    Some(i) => Some(i),
                    None => old(self).results.selected,
                }
            } else {
                r is Nothing
            },
            kind == MouseKind::LeftClick && !areas.previous.contains(pos) && !areas.preview.contains(
                pos,
            ) && areas.current.contains(pos) && old(self).phase is BrowseResults ==> final(self).results.selected == match result_at_row(
                first_visible as int,
                pos.y - areas.current.y,
                old(self).results.items@.len() as int,
            ) {
                Some(i) => Some(i),
                None => old(self).results.selected,
            },
            kind == MouseKind::LeftClick && !areas.previous.contains(pos) && areas.preview.contains(
                pos,
            ) && old(self).phase is BrowseResults ==> final(self).results == old(self).results
                && final(self).phase == old(self).phase && final(self).inputs == old(self).inputs
                && if chosen_files(old(self).results, false).len() > 0 {
                (r matches MouseOutcome::Enqueue(files) && views(files@) == chosen_files(old(self).results, false))
            } else {
                r is Nothing
            },
            kind == MouseKind::LeftClick && !areas.previous.contains(pos) && !areas.preview.contains(
                pos,
            ) && areas.current.contains(pos) && old(self).phase is BrowseResults ==> final(self).phase
                == old(self).phase && final(self).inputs == old(self).inputs && final(self).results.marked@
                == old(self).results.marked@ && match result_at_row(
                first_visible as int,
                pos.y - areas.current.y,
                old(self).results.items@.len() as int,
            ) {
                Some(_) => r is Redraw,
                None => r is Nothing,
            },
            kind == MouseKind::LeftClick && !areas.previous.contains(pos) && !areas.preview.contains(
                pos,
            ) && areas.current.contains(pos) && !(old(self).phase is BrowseResults) ==> final(self).phase
                == old(self).phase && final(self).results == old(self).results && final(self).inputs.same_layout(
                &old(self).inputs,
            ) && final(self).inputs.spinners_equal(&old(self).inputs) && ({
                let inputs = old(self).inputs;
                let y = pos.y - inputs.area.y;
                if inputs.area.contains(pos) && y < inputs.inputs@.len() && !inputs.inputs@[y].is_separator() {
                    final(self).inputs.focused_idx == y
                } else {
                    final(self).inputs.focused_idx == inputs.focused_idx
                }
            }) && if insert_mode {
                r is SearchThenRedraw
            } else {
                r is Redraw
            },
            kind == MouseKind::LeftClick && !areas.previous.contains(pos) && !areas.preview.contains(
                pos,
            ) && !areas.current.contains(pos) ==> r is Nothing && final(self).phase == old(self).phase
                && final(self).results == old(self).results && final(self).inputs == old(self).inputs,
            kind == MouseKind::MiddleClick ==> final(self).phase == old(self).phase && final(self).inputs
                == old(self).inputs && final(self).results.marked@ == old(self).results.marked@
                && if areas.current.contains(pos) && old(self).phase is BrowseResults {
                match result_at_row(
                    first_visible as int,
                    pos.y - areas.current.y,
                    old(self).results.items@.len() as int,
                ) {
                    Some(i) => final(self).results.selected == Some(i) && (r matches MouseOutcome::Add(f)
                        && f@ == old(self).results.items@[i as int].file@),
                    None => r is Nothing && final(self).results == old(self).results,
                }
            } else {
                r is Nothing && final(self).results == old(self).results
            },
            (kind == MouseKind::ScrollDown || kind == MouseKind::ScrollUp) && old(self).phase is BrowseResults
                ==> r is Redraw && final(self).phase == old(self).phase && final(self).inputs == old(self).inputs
                && final(self).results.marked@ == old(self).results.marked@ && final(self).results.selected == if kind
                == MouseKind::ScrollDown {
                crate::queue::row_after(old(self).results.selected, old(self).results.items@.len() as int, false)
            } else {
                crate::queue::row_before(old(self).results.selected, old(self).results.items@.len() as int, false)
            },
            (kind == MouseKind::ScrollDown || kind == MouseKind::ScrollUp) && !(old(self).phase is BrowseResults)
                ==> final(self).phase == old(self).phase && final(self).results == old(self).results && if insert_mode {
                r is SearchThenRedraw
            } else {
                r is Redraw
            },
            kind == MouseKind::DoubleClick && old(self).phase is BrowseResults ==> (r matches MouseOutcome::Enqueue(files)
                && views(files@) == chosen_files(old(self).results, false)) && final(self).results == old(self).results
                && final(self).phase == old(self).phase && final(self).inputs == old(self).inputs,
            kind == MouseKind::Other ==> r is Nothing && final(self).phase == old(self).phase
                && final(self).results == old(self).results && final(self).inputs == old(self).inputs,
            kind == MouseKind::RightClick ==> if old(self).phase == (Phase::BrowseResults {
                filter_input_on: false,
            }) {
                r is ContextMenu
            } else {
                r is Nothing
            },
    {
        if kind == MouseKind::LeftClick && areas.previous.contains(pos) {
            self.phase = Phase::Search;
            self.inputs.focus_input_at(pos);
            return MouseOutcome::Redraw;
        }
        match kind {
            MouseKind::LeftClick => {
                if areas.preview.contains(pos) {
                    match self.phase {
                        Phase::BrowseResults { .. } => {
                            let (_, files) = results_enqueue(&self.results, false);
                            if files.len() > 0 {
                                MouseOutcome::Enqueue(files)
                            } else {
                                MouseOutcome::Nothing
                            }
                        },
                        _ => {
                            if self.results.items.len() > 0 {
                                self.phase = Phase::BrowseResults { filter_input_on: false };
                                let row = row_in(areas.preview, pos.y);
                                if first_visible + row < self.results.items.len() {
                                    self.results.selected = Some(first_visible + row);
                                }
                                MouseOutcome::Redraw
                            } else {
                                MouseOutcome::Nothing
                            }
                        },
                    }
                } else if areas.current.contains(pos) {
                    match self.phase {
                        Phase::BrowseResults { .. } => {
                            let row = row_in(areas.current, pos.y);
                            if first_visible + row < self.results.items.len() {
                                self.results.selected = Some(first_visible + row);
                                MouseOutcome::Redraw
                            } else {
                                MouseOutcome::Nothing
                            }
                        },
                        _ => {
                            self.inputs.focus_input_at(pos);
                            if insert_mode {
                                MouseOutcome::SearchThenRedraw
                            } else {
                                MouseOutcome::Redraw
                            }
                        },
                    }
                } else {
                    MouseOutcome::Nothing
                }
            },
            MouseKind::DoubleClick => match self.phase {
                Phase::BrowseResults { .. } => {
                    let (_, files) = results_enqueue(&self.results, false);
                    MouseOutcome::Enqueue(files)
                },
                _ => {
                    if areas.current.contains(pos) && self.inputs.focused_idx < self.inputs.inputs.len() {
                        let a = self.inputs.activate_focused(None);
                        if a.result == ActionResult::Search {
                            return MouseOutcome::SearchThenRedraw;
                        }
                    }
                    MouseOutcome::Redraw
                },
            },
            MouseKind::MiddleClick => {
                if !areas.current.contains(pos) {
                    return MouseOutcome::Nothing;
                }
                match self.phase {
                    Phase::BrowseResults { .. } => {
                        let row = row_in(areas.current, pos.y);
                        if first_visible + row < self.results.items.len() {
                            let idx = first_visible + row;
                            self.results.selected = Some(idx);
                            MouseOutcome::Add(self.results.items[idx].file.clone())
                        } else {
                            MouseOutcome::Nothing
                        }
                    },
                    _ => MouseOutcome::Nothing,
                }
            },
            MouseKind::ScrollDown => match self.phase {
                Phase::BrowseResults { .. } => {
                    self.results.select_next(false);
                    MouseOutcome::Redraw
                },
                _ => {
                    self.inputs.next_non_wrapping();
                    if insert_mode {
                        MouseOutcome::SearchThenRedraw
                    } else {
                        MouseOutcome::Redraw
                    }
                },
            },
            MouseKind::ScrollUp => match self.phase {
                Phase::BrowseResults { .. } => {
                    self.results.select_prev(false);
                    MouseOutcome::Redraw
                },
                _ => {
                    self.inputs.prev_non_wrapping();
                    if insert_mode {
                        MouseOutcome::SearchThenRedraw
                    } else {
                        MouseOutcome::Redraw
                    }
                },
            },
            MouseKind::RightClick => match self.phase {
                Phase::BrowseResults { filter_input_on: false } => {
                    let row = row_in(areas.current, pos.y);
                    if first_visible + row < self.results.items.len() {
                        self.results.selected = Some(first_visible + row);
                    }
                    MouseOutcome::ContextMenu
                },
                _ => MouseOutcome::Nothing,
            },
            MouseKind::Other => MouseOutcome::Nothing,
        }
    }
}

/// What an entry of the results' context menu does.
pub enum MenuAction {
    /// Enqueue the files at the end of the queue, or in place of it.
    Enqueue { files: Vec<String>, replace: bool },
    /// Ask for a name and save the files as a new playlist.
    CreatePlaylist(Vec<String>),
    /// Ask which playlist, and add the files to it.
    AddToPlaylist(Vec<String>),
    /// Close the menu.
    Cancel,
}

/// An entry of a context menu.
pub struct MenuItem {
    pub label: String,
    pub action: MenuAction,
}

/// The labels of the entries of the results' context menu: the entries on
/// all results (when there are any), those on the chosen results, and
/// cancelling.
pub open spec fn menu_labels(has_results: bool) -> Seq<Seq<char>> {
    (if has_results {
        seq![
            "Add all to queue"@,
            "Replace queue with all"@,
            "Create playlist from all"@,
            "Add all to playlist"@,
        ]
    } else {
        Seq::empty()
    }) + seq!["Create playlist"@, "Add to playlist"@, "Cancel"@]
}

/// The files an entry of the menu acts on, if any.
pub open spec fn action_files(a: MenuAction) -> Option<Seq<Seq<char>>> {
    match a {
        MenuAction::Enqueue { files, .. } => Some(views(files@)),
        MenuAction::CreatePlaylist(files) => Some(views(files@)),
        MenuAction::AddToPlaylist(files) => Some(views(files@)),
        MenuAction::Cancel => None,
    }
}

fn item(label: &str, action: MenuAction) -> (r: MenuItem)
    ensures
        r.label@ == label@,
        r.action == action,
{
    MenuItem { label: label.to_string(), action }
}

impl SearchPaneState {
    /// The context menu of the results: with results, entries that enqueue
    /// all of them (at the end, or replacing the queue) or save them to a
    /// new or existing playlist; entries that save the chosen results (the
    /// marked ones, or the one under the cursor); and cancelling.
    pub fn result_menu(&self) -> (r: Vec<MenuItem>)
        requires
            self.results.well_formed(),
        ensures
            r@.len() == menu_labels(self.results.items@.len() > 0).len(),
            forall|k: int| 0 <= k < r@.len() ==> (#[trigger] r@[k]).label@ == menu_labels(self.results.items@.len() > 0)[k],
            self.results.items@.len() > 0 ==> {
                &&& r@[0].action matches MenuAction::Enqueue { replace, .. } && !replace
                &&& r@[1].action matches MenuAction::Enqueue { replace, .. } && replace
                &&& r@[2].action is CreatePlaylist
                &&& r@[3].action is AddToPlaylist
                &&& forall|k: int| 0 <= k < 4 ==> action_files(#[trigger] r@[k].action) == Some(chosen_files(self.results, true))
            },
            r@[r@.len() - 3].action is CreatePlaylist,
            r@[r@.len() - 2].action is AddToPlaylist,
            action_files(r@[r@.len() - 3].action) == Some(chosen_files(self.results, false)),
            action_files(r@[r@.len() - 2].action) == Some(chosen_files(self.results, false)),
            r@[r@.len() - 1].action is Cancel,
    {
        let mut r: Vec<MenuItem> = Vec::new();
        if self.results.items.len() > 0 {
            let (_, a1) = results_enqueue(&self.results, true);
            let (_, a2) = results_enqueue(&self.results, true);
            let (_, a3) = results_enqueue(&self.results, true);
            let (_, a4) = results_enqueue(&self.results, true);
            r.push(item("Add all to queue", MenuAction::Enqueue { files: a1, replace: false }));
            r.push(item("Replace queue with all", MenuAction::Enqueue { files: a2, replace: true }));
            r.push(item("Create playlist from all", MenuAction::CreatePlaylist(a3)));
            r.push(item("Add all to playlist", MenuAction::AddToPlaylist(a4)));
        }
        let ghost first = r@;
        let (_, b1) = results_enqueue(&self.results, false);
        let (_, b2) = results_enqueue(&self.results, false);
        r.push(item("Create playlist", MenuAction::CreatePlaylist(b1)));
        r.push(item("Add to playlist", MenuAction::AddToPlaylist(b2)));
        r.push(item("Cancel", MenuAction::Cancel));
        proof {
            let labels = menu_labels(self.results.items@.len() > 0);
            assert forall|k: int| 0 <= k < r@.len() implies (#[trigger] r@[k]).label@ == labels[k] by {}
        }
        r
    }
}

/// The filters a search sends, from the rows of the column and the text
/// typed into each (by row): one per tag textbox whose tag and text are
/// not empty, in row order, all with the search mode's comparison.
pub open spec fn search_filters(rows: Seq<InputType>, values: Seq<String>, mode: SearchMode) -> Seq<
    (Seq<char>, Seq<char>, FilterKind),
>
    decreases rows.len(),
{
    if rows.len() == 0 {
        Seq::empty()
    } else {
        let init = search_filters(rows.drop_last(), values, mode);
        let i = rows.len() - 1;
        match rows.last() {
            InputType::Textbox(t) => match t.filter_key {
                Some(k) => if i < values.len() && values[i]@.len() > 0 && k@.len() > 0 {
                    init.push((k@, values[i]@, filter_kind_of(mode)))
                } else {
                    init
                },
                None => init,
            },
            _ => init,
        }
    }
}

/// The comparison a search mode asks the daemon for.
pub open spec fn filter_kind_of(m: SearchMode) -> FilterKind {
    match m {
        SearchMode::Exact => FilterKind::Exact,
        SearchMode::StartsWith => FilterKind::StartsWith,
        SearchMode::Contains => FilterKind::Contains,
        SearchMode::Regex => FilterKind::Regex,
        SearchMode::NotExact => FilterKind::NotExact,
        SearchMode::NotRegex => FilterKind::NotRegex,
    }
}

/// A filter of a search: tag, value and comparison.
pub struct SearchFilter {
    pub tag: String,
    pub value: String,
    pub kind: FilterKind,
}

/// The plain values of a list of search filters.
pub open spec fn search_filters_view(v: Seq<SearchFilter>) -> Seq<(Seq<char>, Seq<char>, FilterKind)> {
    v.map_values(|f: SearchFilter| (f.tag@, f.value@, f.kind))
}

/// What a search does.
pub enum SearchPlan {
    /// The rating value is not a number; nothing is searched.
    InvalidRating,
    /// No tag is searched but a sticker filter is set: list every song
    /// with the wanted stickers.
    ByStickers { rating: Option<StickerFilter>, liked: Option<StickerFilter> },
    /// Nothing to search: clear the results.
    Clear,
    /// Search the tags (ignoring case, and diacritics, when asked), then
    /// keep the songs with the wanted stickers.
    Query {
        filters: Vec<SearchFilter>,
        fold_case: bool,
        strip_diacritics: bool,
        rating: Option<StickerFilter>,
        liked: Option<StickerFilter>,
    },
}

impl InputGroups {
    /// What searching with the column as it is does, given the text typed
    /// into each row (by row), the text of the rating value box, and
    /// whether the daemon keeps stickers.
    pub fn search_plan(&self, values: &Vec<String>, rating_value: &str, stickers_supported: bool) -> (r: SearchPlan)
        ensures
            ({
                let parsed: Option<int> = if rating_value@.len() == 0 {
                    Some(0)
                } else {
                    parse_signed(trimmed(rating_value@), i32::MIN as int, i32::MAX as int)
                };
                let filters = search_filters(self.inputs@, values@, self.search_mode);
                let rating_set = self.rating_mode != RatingMode::Any;
                let liked_set = self.liked_mode != LikedMode::Any;
                match parsed {
                    None => r is InvalidRating,
                    Some(_) => if filters.len() == 0 && stickers_supported && (rating_set || liked_set) {
                        r is ByStickers
                    } else if filters.len() == 0 {
                        r is Clear
                    } else {
                        r matches SearchPlan::Query { filters: fs, fold_case, strip_diacritics, rating, liked }
                            && search_filters_view(fs@) == filters && fold_case == self.fold_case
                            && strip_diacritics == self.strip_diacritics
                            && (rating is Some <==> stickers_supported && rating_set)
                            && (liked is Some <==> stickers_supported && liked_set)
                    },
                }
            }),
    {
        let rating = match self.rating_filter(rating_value) {
            Ok(r) => r,
            Err(_) => {
                return SearchPlan::InvalidRating;
            },
        };
        let liked = self.liked_filter();
        let mode = self.search_mode;
        let kind = mode.filter_kind();
        let mut filters: Vec<SearchFilter> = Vec::new();
        let n = self.inputs.len();
        for i in 0..n
            invariant
                n == self.inputs@.len(),
                kind == filter_kind_of(mode),
                mode == self.search_mode,
                search_filters_view(filters@) == search_filters(self.inputs@.take(i as int), values@, mode),
        {
            assert(self.inputs@.take(i + 1).drop_last() =~= self.inputs@.take(i as int));
            assert(self.inputs@.take(i + 1).last() == self.inputs@[i as int]);
            let ghost before = filters@;
            match &self.inputs[i] {
                InputType::Textbox(t) => match &t.filter_key {
                    Some(k) => {
                        if i < values.len() && to_chars(values[i].as_str()).len() > 0 && to_chars(k.as_str()).len() > 0 {
                            filters.push(SearchFilter { tag: k.clone(), value: values[i].clone(), kind });
                            assert(search_filters_view(filters@) =~= search_filters_view(before).push((k@, values@[i as int]@, kind)));
                        }
                    },
                    None => {},
                },
                _ => {},
            }
        }
        assert(self.inputs@.take(n as int) =~= self.inputs@);
        let rating_set = match self.rating_mode {
            RatingMode::Any => false,
            _ => true,
        };
        let liked_set = match self.liked_mode {
            LikedMode::Any => false,
            _ => true,
        };
        if filters.len() == 0 && stickers_supported && (rating_set || liked_set) {
            SearchPlan::ByStickers { rating, liked }
        } else if filters.len() == 0 {
            SearchPlan::Clear
        } else {
            SearchPlan::Query {
                filters,
                fold_case: self.fold_case,
                strip_diacritics: self.strip_diacritics,
                rating: if stickers_supported { rating } else { None },
                liked: if stickers_supported { liked } else { None },
            }
        }
    }
}

/// The positions of `files` whose file is among `allowed`, in order.
pub open spec fn kept_positions(files: Seq<String>, allowed: Seq<String>) -> Seq<usize>
    decreases files.len(),
{
    if files.len() == 0 {
        Seq::empty()
    } else {
        let init = kept_positions(files.drop_last(), allowed);
        if exists|j: int| 0 <= j < allowed.len() && allowed[j]@ == files.last()@ {
            init.push((files.len() - 1) as usize)
        } else {
            init
        }
    }
}

fn is_allowed(allowed: &Vec<String>, file: &str) -> (r: bool)
    ensures
        r == exists|j: int| 0 <= j < allowed@.len() && allowed@[j]@ == file@,
{
    for j in 0..allowed.len()
        invariant
            forall|q: int| 0 <= q < j ==> (#[trigger] allowed@[q])@ != file@,
    {
        if str_equals(allowed[j].as_str(), file) {
            return true;
        }
    }
    false
}

/// Which results to keep after a sticker filter: the positions of the
/// files that carry the wanted sticker, in order.
pub fn files_kept(files: &Vec<String>, allowed: &Vec<String>) -> (r: Vec<usize>)
    ensures
        r@ == kept_positions(files@, allowed@),
{
    let mut r: Vec<usize> = Vec::new();
    for i in 0..files.len()
        invariant
            r@ == kept_positions(files@.take(i as int), allowed@),
    {
        assert(files@.take(i + 1).drop_last() =~= files@.take(i as int));
        assert(files@.take(i + 1).last() == files@[i as int]);
        if is_allowed(allowed, files[i].as_str()) {
            r.push(i);
        }
    }
    assert(files@.take(files@.len() as int) =~= files@);
    r
}

} // verus!
