use rmpc::geometry::{Position, Rect};
use rmpc::tabs::{tab_at, tab_label, TabsPane};

#[test]
fn tab_labels_are_centred() {
    assert_eq!(tab_label("Queue"), format!("  {: ^9}  ", "Queue"));
    assert_eq!(tab_label("Albums"), format!("  {: ^9}  ", "Albums"));
    assert_eq!(tab_label("Directories"), "  Directories  ");
}

#[test]
fn clicking_a_tab_changes_to_it() {
    assert!(TabsPane::new(Vec::new()).is_none());
    let mut pane = TabsPane::new(vec!["Queue".to_string(), "Library".to_string()]).unwrap();
    assert_eq!(pane.active_index(), Some(0));
    assert_eq!(pane.labels().len(), 2);
    pane.area = Rect { x: 0, y: 0, width: 30, height: 1 };
    pane.tab_areas = vec![Rect { x: 0, y: 0, width: 13, height: 1 }, Rect { x: 13, y: 0, width: 13, height: 1 }];
    assert_eq!(tab_at(&pane.tab_areas, Position { x: 14, y: 0 }), Some(1));
    assert_eq!(pane.clicked_tab(Position { x: 14, y: 0 }), Some("Library".to_string()));
    assert_eq!(pane.clicked_tab(Position { x: 2, y: 0 }), None);
    assert_eq!(pane.clicked_tab(Position { x: 28, y: 0 }), None);
    assert_eq!(pane.clicked_tab(Position { x: 2, y: 5 }), None);
}
