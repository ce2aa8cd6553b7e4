//! The progress bar: clicking it while a song plays or is paused seeks
//! to the point clicked.
use vstd::prelude::*;

use crate::geometry::{Position, Rect};
use crate::search::MouseKind;
use crate::status::PlayState;
use crate::volume::{sat_sub, PlayerRequest};

verus! {

/// The request a pointer event over the progress bar in `area` makes: a
/// click or double click inside it, while a song plays or is paused,
/// seeks to the column clicked; anything else asks nothing.
pub open spec fn progress_request(kind: MouseKind, pos: Position, area: Rect, state: PlayState) -> PlayerRequest {
    if area.contains_spec(pos) && (kind == MouseKind::LeftClick || kind == MouseKind::DoubleClick) && (state
        == PlayState::Play || state == PlayState::Pause) {
        PlayerRequest::SeekAt { offset: sat_sub(pos.x, area.x), width: area.width }
    } else {
        PlayerRequest::Nothing
    }
}

/// The request a pointer event over the progress bar in `area` makes.
pub fn progress_mouse(kind: MouseKind, pos: Position, area: Rect, state: PlayState) -> (r: PlayerRequest)
    ensures
        r == progress_request(kind, pos, area, state),
{
    if !area.contains(pos) {
        return PlayerRequest::Nothing;
    }
    let click = match kind {
        MouseKind::LeftClick | MouseKind::DoubleClick => true,
        _ => false,
    };
    let playing = match state {
        PlayState::Play | PlayState::Pause => true,
        PlayState::Stop => false,
    };
    if click && playing {
        let offset: u16 = if pos.x >= area.x {
            pos.x - area.x
        } else {
            0
        };
        PlayerRequest::SeekAt { offset, width: area.width }
    } else {
        PlayerRequest::Nothing
    }
}

} // verus!
