use rmpc::geometry::{Position, Rect};
use rmpc::queue::{marked_ranges, QueueActions, QueueCommand, QueueMenuAction, QueueMouseOutcome, QueueOutcome, QueueState, RateKind};
use rmpc::queue::row_look;
use rmpc::search::StickerName;
use rmpc::search::MouseKind;
use rmpc::song::Song;

fn song(id: u32) -> Song {
    Song { id, file: format!("dir/song{id}.flac"), duration: None, metadata: Vec::new() }
}

fn queue(n: u32, marked: Vec<usize>, selected: Option<usize>) -> QueueState {
    QueueState { items: (0..n).map(song).collect(), marked, selected }
}

fn ids(q: &QueueState) -> Vec<u32> {
    q.items.iter().map(|s| s.id).collect()
}

#[test]
fn ranges_of_marked_rows() {
    assert_eq!(marked_ranges(&vec![1, 2, 3, 5, 7, 8]), vec![(1, 3), (5, 5), (7, 8)]);
    assert_eq!(marked_ranges(&vec![]), vec![]);
    assert_eq!(marked_ranges(&vec![0]), vec![(0, 0)]);
}

#[test]
fn marked_blocks_move_up() {
    let mut q = queue(8, vec![1, 2, 5], Some(0));
    let cmds = q.move_marked_up();
    assert_eq!(ids(&q), vec![1, 2, 0, 3, 5, 4, 6, 7]);
    assert_eq!(q.marked, vec![0, 1, 4]);
    assert_eq!(q.selected, Some(0));
    assert_eq!(
        cmds,
        vec![
            QueueCommand::MoveRange { first: 1, last: 2, to: 0 },
            QueueCommand::MoveRange { first: 5, last: 5, to: 4 },
        ]
    );
}

#[test]
fn marked_blocks_do_not_move_past_the_top() {
    let mut q = queue(4, vec![0, 2], Some(1));
    assert!(q.move_marked_up().is_empty());
    assert_eq!(ids(&q), vec![0, 1, 2, 3]);
    assert_eq!(q.marked, vec![0, 2]);
}

#[test]
fn marked_blocks_move_down_last_first() {
    let mut q = queue(8, vec![1, 2, 5], None);
    let cmds = q.move_marked_down();
    assert_eq!(ids(&q), vec![0, 3, 1, 2, 4, 6, 5, 7]);
    assert_eq!(q.marked, vec![2, 3, 6]);
    assert_eq!(q.selected, Some(6));
    assert_eq!(
        cmds,
        vec![
            QueueCommand::MoveRange { first: 5, last: 5, to: 6 },
            QueueCommand::MoveRange { first: 1, last: 2, to: 2 },
        ]
    );
    let mut q = queue(4, vec![3], None);
    assert!(q.move_marked_down().is_empty());
}

#[test]
fn moving_up_then_down_restores_the_queue() {
    let mut q = queue(9, vec![2, 3, 6, 7], Some(4));
    q.move_marked_up();
    q.move_marked_down();
    assert_eq!(ids(&q), (0..9).collect::<Vec<_>>());
    assert_eq!(q.marked, vec![2, 3, 6, 7]);
}

#[test]
fn single_song_moves_with_the_cursor() {
    let mut q = queue(3, vec![], Some(1));
    let c = q.move_selected_up();
    assert_eq!(c, Some(QueueCommand::MoveId { id: 1, to: 0 }));
    assert_eq!(ids(&q), vec![1, 0, 2]);
    assert_eq!(q.selected, Some(0));
    let c = q.move_selected_up();
    assert_eq!(c, Some(QueueCommand::MoveId { id: 1, to: 0 }));
    assert_eq!(ids(&q), vec![1, 0, 2]);
    q.selected = Some(2);
    let c = q.move_selected_down();
    assert_eq!(c, Some(QueueCommand::MoveId { id: 2, to: 2 }));
    let cmds = q.move_songs(true);
    assert_eq!(cmds, vec![QueueCommand::MoveId { id: 2, to: 1 }]);
    assert_eq!(ids(&q), vec![1, 2, 0]);
}

#[test]
fn delete_and_shuffle_work_block_by_block() {
    let mut q = queue(6, vec![0, 1, 4], Some(2));
    assert_eq!(
        q.shuffle(),
        vec![
            QueueCommand::ShuffleRange { first: 4, last: 4 },
            QueueCommand::ShuffleRange { first: 0, last: 1 },
        ]
    );
    let cmds = q.delete();
    assert_eq!(
        cmds,
        vec![
            QueueCommand::DeleteRange { first: 4, last: 4 },
            QueueCommand::DeleteRange { first: 0, last: 1 },
        ]
    );
    assert!(q.marked.is_empty());
    assert_eq!(q.delete(), vec![QueueCommand::DeleteId(2)]);
    assert_eq!(q.shuffle(), vec![QueueCommand::ShuffleAll]);
    q.selected = None;
    assert!(matches!(q.handle_queue_action(QueueActions::Delete, None), QueueOutcome::NoSongSelected));
}

#[test]
fn queue_actions_play_and_jump() {
    let mut q = queue(5, vec![], Some(1));
    match q.handle_queue_action(QueueActions::Play, None) {
        QueueOutcome::Commands(c) => assert_eq!(c, vec![QueueCommand::PlayId(1)]),
        _ => panic!("expected a command"),
    }
    assert!(matches!(q.handle_queue_action(QueueActions::JumpToCurrent, Some(3)), QueueOutcome::Nothing));
    assert_eq!(q.selected, Some(3));
    assert!(matches!(q.handle_queue_action(QueueActions::JumpToCurrent, Some(42)), QueueOutcome::NoSongPlaying));
    assert_eq!(q.selected, Some(3));
    assert!(matches!(q.handle_queue_action(QueueActions::DeleteAll, None), QueueOutcome::ConfirmClear));
}

#[test]
fn marks_invert_and_toggle() {
    let mut q = queue(5, vec![1, 3], Some(2));
    q.invert_marked();
    assert_eq!(q.marked, vec![0, 2, 4]);
    q.invert_marked();
    assert_eq!(q.marked, vec![1, 3]);
    q.toggle_mark_selected();
    assert_eq!(q.marked, vec![1, 2, 3]);
    q.toggle_mark_selected();
    assert_eq!(q.marked, vec![1, 3]);
    q.clear_marked();
    assert!(q.marked.is_empty());
}

#[test]
fn rows_and_files_to_enqueue() {
    let mut q = queue(4, vec![], Some(2));
    assert_eq!(q.rows(true), vec![0, 1, 2, 3]);
    assert_eq!(q.rows(false), vec![2]);
    let (files, hovered) = q.enqueue_items(true);
    assert_eq!(files.len(), 4);
    assert_eq!(files[3], "dir/song3.flac");
    assert_eq!(hovered, Some(2));
    q.marked = vec![0, 3];
    let (files, hovered) = q.enqueue_items(false);
    assert_eq!(files, vec!["dir/song0.flac".to_string(), "dir/song3.flac".to_string()]);
    assert_eq!(hovered, None);
    let q = QueueState::new(Vec::new());
    assert_eq!(q.selected, None);
}

#[test]
fn jumps_to_next_and_previous_match_going_round() {
    let mut q = queue(5, Vec::new(), Some(3));
    assert!(q.jump_forward(&vec![true, false, false, false, false]));
    assert_eq!(q.selected, Some(0));
    let mut q = queue(5, Vec::new(), Some(1));
    assert!(q.jump_back(&vec![false, false, false, true, false]));
    assert_eq!(q.selected, Some(3));
    let mut q = queue(3, Vec::new(), Some(1));
    assert!(!q.jump_forward(&vec![false, true, false]));
    assert_eq!(q.selected, Some(1));
    let mut q = queue(3, Vec::new(), None);
    assert!(!q.jump_back(&vec![true, true, true]));
    assert_eq!(q.selected, None);
}

#[test]
fn queue_context_menu() {
    let q = queue(3, Vec::new(), Some(2));
    let menu = q.context_menu();
    let labels: Vec<Vec<String>> = menu.iter().map(|s| s.iter().map(|i| i.label.clone()).collect()).collect();
    assert_eq!(
        labels,
        vec![
            vec!["Play".to_string(), "Show info".to_string()],
            vec!["Add queue to playlist".to_string(), "Save queue as playlist".to_string()],
            vec!["Remove".to_string(), "Clear queue".to_string()],
            vec!["Cancel".to_string()],
        ]
    );
    assert!(matches!(menu[0][0].action, QueueMenuAction::Play(Some(2))));
    assert!(matches!(menu[0][1].action, QueueMenuAction::ShowInfo(Some(2))));
    match &menu[1][0].action {
        QueueMenuAction::AddQueueToPlaylist(files) => assert_eq!(files, &vec!["dir/song0.flac", "dir/song1.flac", "dir/song2.flac"]),
        _ => panic!("expected the queue's files"),
    }
    assert!(matches!(menu[2][0].action, QueueMenuAction::Remove(Some(2))));
    let empty = queue(0, Vec::new(), None);
    assert!(matches!(empty.context_menu()[2][0].action, QueueMenuAction::Remove(None)));
}

#[test]
fn playlist_uris_of_local_files() {
    assert_eq!(rmpc::queue::playlist_uri("/home/me/a.flac"), "file:///home/me/a.flac");
    assert_eq!(rmpc::queue::playlist_uri("music/a.flac"), "music/a.flac");
    assert_eq!(rmpc::queue::playlist_uri(""), "");
}

#[test]
fn queue_mouse_clicks() {
    let table = Rect { x: 0, y: 2, width: 40, height: 5 };
    let mut q = queue(10, Vec::new(), Some(0));
    assert_eq!(q.handle_mouse(MouseKind::LeftClick, Position { x: 3, y: 4 }, table, 5), QueueMouseOutcome::Redraw);
    assert_eq!(q.selected, Some(7));
    assert_eq!(q.handle_mouse(MouseKind::DoubleClick, Position { x: 3, y: 2 }, table, 5), QueueMouseOutcome::Play(5));
    assert_eq!(q.handle_mouse(MouseKind::MiddleClick, Position { x: 3, y: 3 }, table, 5), QueueMouseOutcome::Delete(6));
    assert_eq!(q.handle_mouse(MouseKind::LeftClick, Position { x: 3, y: 6 }, table, 8), QueueMouseOutcome::Nothing);
    assert_eq!(q.handle_mouse(MouseKind::RightClick, Position { x: 3, y: 3 }, table, 0), QueueMouseOutcome::ContextMenu);
    assert_eq!(q.selected, Some(1));
    assert_eq!(q.handle_mouse(MouseKind::ScrollUp, Position { x: 3, y: 3 }, table, 0), QueueMouseOutcome::Scroll { down: false });
    assert_eq!(q.handle_mouse(MouseKind::LeftClick, Position { x: 50, y: 3 }, table, 0), QueueMouseOutcome::Nothing);
}

#[test]
fn rating_and_saving_chosen_songs() {
    let q = queue(4, vec![1, 3], Some(0));
    let r = q.rate(RateKind::Value(7));
    assert_eq!(r.name, StickerName::Rating);
    assert_eq!(r.value, "7");
    assert_eq!(r.files, vec!["dir/song1.flac", "dir/song3.flac"]);
    let like = queue(4, Vec::new(), Some(2)).rate(RateKind::Dislike);
    assert_eq!(like.name, StickerName::Like);
    assert_eq!(like.value, "0");
    assert_eq!(like.files, vec!["dir/song2.flac"]);
    assert_eq!(q.playlist_files(true).map(|f| f.len()), Some(4));
    assert!(queue(0, Vec::new(), None).playlist_files(false).is_none());
}

#[test]
fn how_queue_rows_are_drawn() {
    let widths = vec![10u16, 20, 5];
    let look = row_look(3, 10, false, true, false, true, true, true, &widths, 2);
    assert!(!look.highlighted);
    assert!(look.underlined);
    assert_eq!(look.text_lens, vec![8, 20, 5]);

    let look = row_look(9, 10, true, false, false, false, true, true, &widths, 2);
    assert!(look.highlighted);
    // The last row is never underlined.
    assert!(!look.underlined);
    assert_eq!(look.text_lens, vec![10, 20, 5]);

    let look = row_look(0, 10, false, true, true, true, false, false, &vec![1u16], 3);
    assert!(look.highlighted);
    assert_eq!(look.text_lens, vec![0]);
    // Matching only counts while filtering.
    assert!(!row_look(0, 10, false, false, false, true, false, false, &widths, 1).highlighted);
}
