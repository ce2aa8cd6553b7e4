//! The volume slider: which symbol and style each cell of the bar takes.
use vstd::prelude::*;

use crate::geometry::{Position, Rect};

verus! {

/// The symbol a cell of the slider shows.
#[derive(Clone, Copy, PartialEq, Eq, Structural, Debug)]
pub enum SliderSymbol {
    Start,
    Filled,
    Thumb,
    Track,
    End,
}

/// The style a cell of the slider is drawn in.
#[derive(Clone, Copy, PartialEq, Eq, Structural, Debug)]
pub enum SliderStyle {
    Filled,
    Thumb,
    Track,
}

/// Cell `i` of a slider `width` cells wide, the first `filled` of them
/// filled: the start and end symbols (when configured) take the first and
/// last cells, filled cells come before the thumb, the track after it. The
/// cells up to the thumb are in the filled style once anything is filled.
pub open spec fn slider_cell(i: int, width: int, filled: int, has_start: bool, has_end: bool) -> (SliderSymbol, SliderStyle) {
    let style = if i <= filled && filled > 0 {
        SliderStyle::Filled
    } else {
        SliderStyle::Track
    };
    if has_start && i == 0 {
        (SliderSymbol::Start, style)
    } else if i < filled {
        (SliderSymbol::Filled, style)
    } else if has_end && i == width - 1 {
        (SliderSymbol::End, style)
    } else if i == filled {
        (SliderSymbol::Thumb, SliderStyle::Thumb)
    } else {
        (SliderSymbol::Track, style)
    }
}

/// The cells of the slider drawn in an area `width` by `height`, the first
/// `filled` cells filled; none when the area is empty.
pub fn slider_cells(width: u16, height: u16, filled: u16, has_start: bool, has_end: bool) -> (r: Vec<(SliderSymbol, SliderStyle)>)
    ensures
        width < 1 || height < 1 ==> r@.len() == 0,
        width >= 1 && height >= 1 ==> r@.len() == width && forall|i: int|
            0 <= i < width ==> #[trigger] r@[i] == slider_cell(i, width as int, filled as int, has_start, has_end),
{
    let mut r: Vec<(SliderSymbol, SliderStyle)> = Vec::new();
    if width < 1 || height < 1 {
        return r;
    }
    for i in 0..width
        invariant
            width >= 1,
            r@.len() == i,
            forall|j: int| 0 <= j < i ==> #[trigger] r@[j] == slider_cell(j, width as int, filled as int, has_start, has_end),
    {
        let style = if i <= filled && filled > 0 {
            SliderStyle::Filled
        } else {
            SliderStyle::Track
        };
        let cell = if has_start && i == 0 {
            (SliderSymbol::Start, style)
        } else if i < filled {
            (SliderSymbol::Filled, style)
        } else if has_end && i == width - 1 {
            (SliderSymbol::End, style)
        } else if i == filled {
            (SliderSymbol::Thumb, SliderStyle::Thumb)
        } else {
            (SliderSymbol::Track, style)
        };
        r.push(cell);
    }
    r
}


/// What a pointer did over the volume slider.
#[derive(Clone, Copy, PartialEq, Eq, Structural, Debug)]
pub enum SliderPointer {
    LeftClick,
    DoubleClick,
    ScrollUp,
    ScrollDown,
    /// Dragged from `start`.
    Drag { start: Position },
    Other,
}

/// What the player is asked to do from a pointer event.
#[derive(Clone, Copy, PartialEq, Eq, Structural, Debug)]
pub enum PlayerRequest {
    Nothing,
    TogglePause,
    /// Raise the volume by this step.
    VolumeUp(u32),
    /// Lower the volume by this step.
    VolumeDown(u32),
    /// Set the volume to the share `offset / (width - 1)` of the full
    /// volume, rounded, as the slider `width` cells wide shows it, then draw
    /// again.
    VolumeAt { offset: u16, width: u16 },
    /// Seek to the share `offset / width` of the song playing, as the
    /// progress bar `width` cells wide shows it, then draw again.
    SeekAt { offset: u16, width: u16 },
}

/// `a - b`, or zero when that is negative.
pub open spec fn sat_sub(a: u16, b: u16) -> u16 {
    if a >= b {
        (a - b) as u16
    } else {
        0
    }
}

/// The request a pointer event over the slider in `area` makes: a click
/// inside a slider of some width, or a drag that started inside it, sets
/// the volume at the pointer's column; scrolling inside it steps the
/// volume by `step`; anything else asks nothing.
pub open spec fn slider_request(kind: SliderPointer, pos: Position, area: Rect, step: u32) -> PlayerRequest {
    let at = PlayerRequest::VolumeAt { offset: sat_sub(pos.x, area.x), width: area.width };
    match kind {
        SliderPointer::LeftClick | SliderPointer::DoubleClick => if area.contains_spec(pos) && area.width != 0 {
            at
        } else {
            PlayerRequest::Nothing
        },
        SliderPointer::ScrollUp => if area.contains_spec(pos) {
            PlayerRequest::VolumeUp(step)
        } else {
            PlayerRequest::Nothing
        },
        SliderPointer::ScrollDown => if area.contains_spec(pos) {
            PlayerRequest::VolumeDown(step)
        } else {
            PlayerRequest::Nothing
        },
        SliderPointer::Drag { start } => if area.contains_spec(start) {
            at
        } else {
            PlayerRequest::Nothing
        },
        SliderPointer::Other => PlayerRequest::Nothing,
    }
}

/// The request a pointer event over the volume slider in `area` makes.
pub fn slider_mouse(kind: SliderPointer, pos: Position, area: Rect, step: u32) -> (r: PlayerRequest)
    ensures
        r == slider_request(kind, pos, area, step),
{
    let offset: u16 = if pos.x >= area.x {
        pos.x - area.x
    } else {
        0
    };
    let at = PlayerRequest::VolumeAt { offset, width: area.width };
    match kind {
        SliderPointer::LeftClick | SliderPointer::DoubleClick => if area.contains(pos) && area.width != 0 {
            at
        } else {
            PlayerRequest::Nothing
        },
        SliderPointer::ScrollUp => if area.contains(pos) {
            PlayerRequest::VolumeUp(step)
        } else {
            PlayerRequest::Nothing
        },
        SliderPointer::ScrollDown => if area.contains(pos) {
            PlayerRequest::VolumeDown(step)
        } else {
            PlayerRequest::Nothing
        },
        SliderPointer::Drag { start } => if area.contains(start) {
            at
        } else {
            PlayerRequest::Nothing
        },
        SliderPointer::Other => PlayerRequest::Nothing,
    }
}

} // verus!
