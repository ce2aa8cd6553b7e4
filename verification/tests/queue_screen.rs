use rmpc::screens::queue::{QueueKey, QueueScreen, QueueScreenAction, QueueScreenEffect};
use rmpc::screens::search::{KeyCode, KeyResult, ListMove};
use rmpc::screens::CommonAction;
use rmpc::song::Song;

fn songs(n: u32) -> Vec<Song> {
    (0..n).map(|id| Song { id: id + 10, file: format!("f{id}"), duration: None, metadata: Vec::new() }).collect()
}

fn queue_key(a: QueueScreenAction) -> QueueKey {
    QueueKey { queue_action: Some(a), action: None, external_command: false, code: KeyCode::Other }
}

fn nav(a: CommonAction) -> QueueKey {
    QueueKey { queue_action: None, action: Some(a), external_command: false, code: KeyCode::Other }
}

#[test]
fn queue_screen_actions_on_the_selected_song() {
    let mut s = QueueScreen::new();
    let q = songs(3);
    assert!(matches!(s.handle_key(queue_key(QueueScreenAction::Delete), &q, Some(1)), (KeyResult::SkipRender, QueueScreenEffect::DeleteSong(11))));
    assert!(matches!(s.handle_key(queue_key(QueueScreenAction::Delete), &q, None), (KeyResult::SkipRender, QueueScreenEffect::NoSongSelected)));
    assert!(matches!(s.handle_key(queue_key(QueueScreenAction::Play), &q, Some(2)), (KeyResult::SkipRender, QueueScreenEffect::PlaySong(12))));
    assert!(matches!(s.handle_key(queue_key(QueueScreenAction::DeleteAll), &q, None), (KeyResult::Modal, QueueScreenEffect::ConfirmClear)));
    match s.handle_key(queue_key(QueueScreenAction::AddToPlaylist), &q, Some(0)) {
        (KeyResult::Modal, QueueScreenEffect::AddToPlaylist(f)) => assert_eq!(f, "f0"),
        _ => panic!("expected the playlist dialog"),
    }
}

#[test]
fn queue_screen_moves_songs_within_bounds() {
    let mut s = QueueScreen::new();
    let q = songs(3);
    assert!(matches!(s.handle_key(nav(CommonAction::MoveUp), &q, Some(0)), (KeyResult::SkipRender, QueueScreenEffect::MoveSong { id: 10, to: 0 })));
    assert!(matches!(s.handle_key(nav(CommonAction::MoveDown), &q, Some(2)), (KeyResult::SkipRender, QueueScreenEffect::MoveSong { id: 12, to: 2 })));
    assert!(matches!(s.handle_key(nav(CommonAction::MoveDown), &q, Some(0)), (KeyResult::SkipRender, QueueScreenEffect::MoveSong { id: 10, to: 1 })));
    assert!(matches!(s.handle_key(nav(CommonAction::Down), &q, Some(0)), (KeyResult::Render, QueueScreenEffect::List(ListMove::Next))));
    assert!(matches!(s.handle_key(nav(CommonAction::Down), &Vec::new(), None), (KeyResult::Render, QueueScreenEffect::Nothing)));
}

#[test]
fn queue_screen_filter_typing() {
    let mut s = QueueScreen::new();
    let q = songs(2);
    s.handle_key(nav(CommonAction::EnterSearch), &q, Some(0));
    assert!(s.filter_input_mode);
    s.handle_key(QueueKey { queue_action: None, action: None, external_command: false, code: KeyCode::Char('f') }, &q, Some(0));
    assert_eq!(s.filter.as_deref(), Some("f"));
    assert!(matches!(s.handle_key(nav(CommonAction::Confirm), &q, Some(0)), (KeyResult::Render, QueueScreenEffect::JumpForward)));
    assert!(!s.filter_input_mode);
    assert_eq!(s.filter.as_deref(), Some("f"));
    assert!(matches!(s.handle_key(nav(CommonAction::PreviousResult), &q, Some(0)), (KeyResult::Render, QueueScreenEffect::JumpBack)));
    let ext = QueueKey { queue_action: None, action: None, external_command: true, code: KeyCode::Other };
    match s.handle_key(ext, &q, Some(1)) {
        (KeyResult::SkipRender, QueueScreenEffect::ExternalCommand(Some(f))) => assert_eq!(f, "f1"),
        _ => panic!("expected the external command"),
    }
}
