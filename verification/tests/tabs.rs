use rmpc::geometry::{Position, Rect};
use rmpc::queue_header::{calculate_swaps, column_order, column_swaps, SwapError};
use rmpc::tab_screen::{FocusDirection, TabScreen};

fn rect(x: u16, y: u16, w: u16, h: u16) -> Rect {
    Rect { x, y, width: w, height: h }
}

fn screen() -> TabScreen {
    // Two panes side by side on top, one wide pane below.
    let mut t = TabScreen::new(vec![(1, true), (2, true), (3, true)]);
    t.record_layout(1, true, rect(1, 1, 8, 8), rect(0, 0, 10, 10), 0);
    t.record_layout(2, true, rect(11, 1, 8, 8), rect(10, 0, 10, 10), 0);
    t.record_layout(3, true, rect(1, 11, 18, 8), rect(0, 10, 20, 10), 0);
    t
}

#[test]
fn focus_moves_to_the_neighbour() {
    let mut t = screen();
    assert_eq!(t.focused, Some(1));
    t.move_focus(FocusDirection::Right, 1);
    assert_eq!(t.focused, Some(2));
    t.move_focus(FocusDirection::Down, 2);
    assert_eq!(t.focused, Some(3));
    // Going back up picks the pane that had focus most recently.
    t.move_focus(FocusDirection::Up, 3);
    assert_eq!(t.focused, Some(2));
    t.move_focus(FocusDirection::Up, 4);
    assert_eq!(t.focused, Some(2));
}

#[test]
fn clicking_focuses_the_pane_under_the_cursor() {
    let mut t = screen();
    assert!(t.focus_at(Position { x: 5, y: 15 }, 1));
    assert_eq!(t.focused, Some(3));
    assert!(!t.focus_at(Position { x: 50, y: 50 }, 2));
    assert_eq!(t.focused, Some(3));
}

#[test]
fn geometry_edges() {
    let r = rect(2, 3, 4, 5);
    assert_eq!(r.right(), 6);
    assert_eq!(r.bottom(), 8);
    assert!(r.contains(Position { x: 2, y: 3 }));
    assert!(!r.contains(Position { x: 6, y: 3 }));
    assert!(rect(0, 0, 5, 5).overlaps_in_x(rect(4, 10, 5, 5)));
    assert!(!rect(0, 0, 5, 5).overlaps_in_x(rect(5, 0, 5, 5)));
    assert_eq!(rect(65535, 0, 10, 1).right(), 65535);
}

#[test]
fn swaps_reorder_the_queue() {
    let desired = vec![3, 1, 2];
    let current = vec![1, 2, 3];
    let swaps = calculate_swaps(&desired, &current).unwrap();
    let mut q = current.clone();
    for (a, b) in swaps {
        q.swap(a, b);
    }
    assert_eq!(q, desired);
    assert!(matches!(calculate_swaps(&vec![9, 1, 2], &current), Err(SwapError::UnknownId(9))));
}

fn texts(v: &[&str]) -> Vec<String> {
    v.iter().map(|s| s.to_string()).collect()
}

#[test]
fn sorting_by_a_column_goes_ascending_unless_already_ascending() {
    assert_eq!(column_swaps(&vec![1, 2, 3], &texts(&["b", "a", "c"])), Ok(vec![(0, 1)]));
    assert_eq!(column_swaps(&vec![1, 2, 3], &texts(&["a", "b", "c"])), Ok(vec![(0, 2)]));
    assert_eq!(column_swaps(&vec![1, 2], &texts(&["B", "a"])), Ok(vec![(0, 1)]));
    // Equal texts keep their order in either direction.
    assert_eq!(column_order(&texts(&["x", "a", "X"])), vec![1, 0, 2]);
    assert_eq!(column_order(&texts(&["a", "b", "B"])), vec![1, 2, 0]);
    assert_eq!(column_swaps(&vec![], &texts(&[])), Ok(vec![]));
}
