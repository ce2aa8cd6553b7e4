//! The header: clicking it pauses or resumes playback, scrolling over it
//! steps the volume.
use vstd::prelude::*;

use crate::geometry::{Position, Rect};
use crate::search::MouseKind;
use crate::volume::PlayerRequest;

verus! {

/// The request a pointer event over the header in `area` makes: inside it,
/// a left click toggles pause and scrolling steps the volume by `step`;
/// outside it, or for another kind of event, nothing.
pub open spec fn header_request(kind: MouseKind, pos: Position, area: Rect, step: u32) -> PlayerRequest {
    if !area.contains_spec(pos) {
        PlayerRequest::Nothing
    } else {
        match kind {
            MouseKind::LeftClick => PlayerRequest::TogglePause,
            MouseKind::ScrollUp => PlayerRequest::VolumeUp(step),
            MouseKind::ScrollDown => PlayerRequest::VolumeDown(step),
            _ => PlayerRequest::Nothing,
        }
    }
}

/// The request a pointer event over the header in `area` makes.
pub fn header_mouse(kind: MouseKind, pos: Position, area: Rect, step: u32) -> (r: PlayerRequest)
    ensures
        r == header_request(kind, pos, area, step),
{
    if !area.contains(pos) {
        return PlayerRequest::Nothing;
    }
    match kind {
        MouseKind::LeftClick => PlayerRequest::TogglePause,
        MouseKind::ScrollUp => PlayerRequest::VolumeUp(step),
        MouseKind::ScrollDown => PlayerRequest::VolumeDown(step),
        _ => PlayerRequest::Nothing,
    }
}

} // verus!
