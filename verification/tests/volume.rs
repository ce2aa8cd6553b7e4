use rmpc::geometry::{Position, Rect};
use rmpc::header::header_mouse;
use rmpc::progress_bar::progress_mouse;
use rmpc::status::PlayState;
use rmpc::search::MouseKind;
use rmpc::volume::{slider_cells, slider_mouse, PlayerRequest, SliderPointer, SliderStyle, SliderSymbol};

fn symbols(v: &[(SliderSymbol, SliderStyle)]) -> Vec<SliderSymbol> {
    v.iter().map(|c| c.0).collect()
}

#[test]
fn volume_zero_is_correct() {
    let cells = slider_cells(5, 1, 0, true, true);
    assert_eq!(
        symbols(&cells),
        vec![SliderSymbol::Start, SliderSymbol::Track, SliderSymbol::Track, SliderSymbol::Track, SliderSymbol::End]
    );
}

#[test]
fn volume_max_is_correct() {
    // 100% of the four cells after the first.
    let cells = slider_cells(5, 1, 4, true, true);
    assert_eq!(
        symbols(&cells),
        vec![SliderSymbol::Start, SliderSymbol::Filled, SliderSymbol::Filled, SliderSymbol::Filled, SliderSymbol::End]
    );
    assert_eq!(cells[1].1, SliderStyle::Filled);
}

#[test]
fn volume_half_is_correct() {
    let cells = slider_cells(5, 1, 2, true, true);
    assert_eq!(
        symbols(&cells),
        vec![SliderSymbol::Start, SliderSymbol::Filled, SliderSymbol::Thumb, SliderSymbol::Track, SliderSymbol::End]
    );
    assert_eq!(cells[2].1, SliderStyle::Thumb);
    assert_eq!(cells[3].1, SliderStyle::Track);
}

#[test]
fn slider_without_end_symbols_and_empty_area() {
    let cells = slider_cells(3, 1, 0, false, false);
    assert_eq!(symbols(&cells), vec![SliderSymbol::Thumb, SliderSymbol::Track, SliderSymbol::Track]);
    assert!(slider_cells(0, 1, 0, true, true).is_empty());
    assert!(slider_cells(4, 0, 0, true, true).is_empty());
}

#[test]
fn clicking_the_slider_sets_the_volume_at_the_column() {
    let area = Rect { x: 10, y: 3, width: 21, height: 1 };
    let at = Position { x: 15, y: 3 };
    assert_eq!(slider_mouse(SliderPointer::LeftClick, at, area, 5), PlayerRequest::VolumeAt { offset: 5, width: 21 });
    assert_eq!(slider_mouse(SliderPointer::DoubleClick, at, area, 5), PlayerRequest::VolumeAt { offset: 5, width: 21 });
    assert_eq!(slider_mouse(SliderPointer::LeftClick, Position { x: 9, y: 3 }, area, 5), PlayerRequest::Nothing);
}

#[test]
fn scrolling_over_the_slider_steps_the_volume() {
    let area = Rect { x: 10, y: 3, width: 21, height: 1 };
    let at = Position { x: 12, y: 3 };
    assert_eq!(slider_mouse(SliderPointer::ScrollUp, at, area, 5), PlayerRequest::VolumeUp(5));
    assert_eq!(slider_mouse(SliderPointer::ScrollDown, at, area, 5), PlayerRequest::VolumeDown(5));
    assert_eq!(slider_mouse(SliderPointer::ScrollDown, Position { x: 12, y: 4 }, area, 5), PlayerRequest::Nothing);
    assert_eq!(slider_mouse(SliderPointer::Other, at, area, 5), PlayerRequest::Nothing);
}

#[test]
fn dragging_counts_where_the_drag_started() {
    let area = Rect { x: 10, y: 3, width: 21, height: 1 };
    let start = Position { x: 11, y: 3 };
    // The pointer left the slider; the column still counts, clamped at its left edge.
    assert_eq!(
        slider_mouse(SliderPointer::Drag { start }, Position { x: 4, y: 9 }, area, 5),
        PlayerRequest::VolumeAt { offset: 0, width: 21 }
    );
    assert_eq!(
        slider_mouse(SliderPointer::Drag { start: Position { x: 0, y: 0 } }, Position { x: 12, y: 3 }, area, 5),
        PlayerRequest::Nothing
    );
}

#[test]
fn the_header_toggles_pause_and_steps_the_volume() {
    let area = Rect { x: 0, y: 0, width: 80, height: 2 };
    let at = Position { x: 40, y: 1 };
    assert_eq!(header_mouse(MouseKind::LeftClick, at, area, 3), PlayerRequest::TogglePause);
    assert_eq!(header_mouse(MouseKind::ScrollUp, at, area, 3), PlayerRequest::VolumeUp(3));
    assert_eq!(header_mouse(MouseKind::ScrollDown, at, area, 3), PlayerRequest::VolumeDown(3));
    assert_eq!(header_mouse(MouseKind::RightClick, at, area, 3), PlayerRequest::Nothing);
    assert_eq!(header_mouse(MouseKind::LeftClick, Position { x: 40, y: 2 }, area, 3), PlayerRequest::Nothing);
}

#[test]
fn clicking_the_progress_bar_seeks_while_a_song_is_loaded() {
    let area = Rect { x: 2, y: 10, width: 50, height: 1 };
    let at = Position { x: 27, y: 10 };
    assert_eq!(progress_mouse(MouseKind::LeftClick, at, area, PlayState::Play), PlayerRequest::SeekAt { offset: 25, width: 50 });
    assert_eq!(progress_mouse(MouseKind::DoubleClick, at, area, PlayState::Pause), PlayerRequest::SeekAt { offset: 25, width: 50 });
    assert_eq!(progress_mouse(MouseKind::LeftClick, at, area, PlayState::Stop), PlayerRequest::Nothing);
    assert_eq!(progress_mouse(MouseKind::ScrollUp, at, area, PlayState::Play), PlayerRequest::Nothing);
    assert_eq!(progress_mouse(MouseKind::LeftClick, Position { x: 1, y: 10 }, area, PlayState::Play), PlayerRequest::Nothing);
}
