use rmpc::geometry::{Position, Rect};
use rmpc::logs::{mouse_move, LogsAction, LogsPane};
use rmpc::search::MouseKind;
use rmpc::screens::search::{KeyResult, ListMove};
use rmpc::screens::CommonAction;

#[test]
fn logs_keep_the_last_thousand() {
    let mut pane = LogsPane::new();
    for i in 0..1005u32 {
        pane.add_log(i.to_string().into_bytes());
    }
    assert_eq!(pane.logs.len(), 1000);
    assert_eq!(pane.logs[0], b"5".to_vec());
    assert!(pane.should_scroll_to_last);
    pane.clear();
    assert!(pane.logs.is_empty());
}

#[test]
fn scrolling_to_the_last_message() {
    let mut pane = LogsPane::new();
    assert!(pane.take_scroll_to_last(true));
    assert!(!pane.take_scroll_to_last(false));
    pane.add_log(b"x".to_vec());
    assert!(pane.take_scroll_to_last(false));
    assert!(!pane.should_scroll_to_last);
    pane.toggle_scroll();
    pane.add_log(b"y".to_vec());
    assert!(!pane.take_scroll_to_last(true));
}

#[test]
fn long_messages_wrap_with_indented_continuations() {
    let mut pane = LogsPane::new();
    pane.add_log(b"alpha beta gamma".to_vec());
    pane.add_log(vec![b'o', b'k', 0xff]);
    // 17 columns leave 10 for the text.
    let rows = pane.rows(17);
    assert_eq!(rows, vec!["alpha beta".to_string(), "    gamma".to_string(), "ok\u{fffd}".to_string()]);
}

#[test]
fn logs_keys() {
    let mut pane = LogsPane::new();
    pane.add_log(b"a".to_vec());
    assert_eq!(pane.handle_key(None, Some(CommonAction::Down)), (KeyResult::Render, Some(ListMove::Next)));
    assert_eq!(pane.handle_key(None, Some(CommonAction::Top)), (KeyResult::Render, Some(ListMove::First)));
    assert_eq!(pane.handle_key(None, Some(CommonAction::Confirm)), (KeyResult::SkipRender, None));
    assert_eq!(pane.handle_key(None, None), (KeyResult::NotHandled, None));
    assert_eq!(pane.handle_key(Some(LogsAction::ToggleScroll), None), (KeyResult::SkipRender, None));
    assert!(!pane.scroll_enabled);
    assert_eq!(pane.handle_key(Some(LogsAction::Clear), Some(CommonAction::Down)), (KeyResult::Render, None));
    assert!(pane.logs.is_empty());
}

#[test]
fn scrolling_over_the_logs_moves_without_wrapping() {
    let area = Rect { x: 0, y: 1, width: 50, height: 20 };
    let inside = Position { x: 3, y: 4 };
    assert_eq!(mouse_move(MouseKind::ScrollUp, inside, area), Some(ListMove::PrevStop));
    assert_eq!(mouse_move(MouseKind::ScrollDown, inside, area), Some(ListMove::NextStop));
    assert_eq!(mouse_move(MouseKind::LeftClick, inside, area), None);
    assert_eq!(mouse_move(MouseKind::ScrollDown, Position { x: 3, y: 0 }, area), None);
}
