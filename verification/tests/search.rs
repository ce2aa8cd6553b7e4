use rmpc::search::MenuAction;
use rmpc::geometry::{Position, Rect};
use rmpc::queue::QueueState;
use rmpc::song::Song;
use rmpc::search::{
    label_for, scrollbar_target_index, ActionResult, BufferCommand, InputCommand, InputGroups,
    InputKey, InputType, LikedMode, Phase, RatingMode, RowShape, SearchColumnAction,
    SearchColumnOutcome, SearchConfig, SearchMode, SearchPaneState, SearchTag, StickerFilter,
    FilterKey, ResultsAction, ResultsOutcome, StickerName, results_enqueue, files_kept, SearchPlan,
    FilterKind,
};

#[test]
fn search_test_search_pane_scrollbar_calculation() {
    let scrollbar_height: u16 = 10;
    let total_items: usize = 50;

    let clicked_y = scrollbar_height.saturating_sub(1);
    let target_idx = if clicked_y >= scrollbar_height.saturating_sub(1) {
        total_items.saturating_sub(1)
    } else {
        let position_ratio = f64::from(clicked_y) / f64::from(scrollbar_height.saturating_sub(1));
        ((position_ratio * (total_items.saturating_sub(1)) as f64) as usize)
            .min(total_items.saturating_sub(1))
    };

    assert_eq!(target_idx, total_items - 1);
    assert_eq!(scrollbar_target_index(clicked_y, scrollbar_height, total_items), total_items - 1);

    let clicked_y: u16 = 0;
    let position_ratio = f64::from(clicked_y) / f64::from(scrollbar_height.saturating_sub(1));
    let target_idx = ((position_ratio * (total_items.saturating_sub(1)) as f64) as usize)
        .min(total_items.saturating_sub(1));

    assert_eq!(target_idx, 0);
    assert_eq!(scrollbar_target_index(clicked_y, scrollbar_height, total_items), 0);

    let clicked_y: u16 = 5;
    let position_ratio = f64::from(clicked_y) / f64::from(scrollbar_height.saturating_sub(1));
    let target_idx = ((position_ratio * (total_items.saturating_sub(1)) as f64) as usize)
        .min(total_items.saturating_sub(1));

    // should be roughly in the middle (around 25-27)
    assert!((20..=30).contains(&target_idx));
    let idx = scrollbar_target_index(clicked_y, scrollbar_height, total_items);
    assert!((20..=30).contains(&idx));
    assert_eq!(idx, target_idx);
}

#[test]
fn mod_test_search_pane_scrollbar_calculation() {
    let scrollbar_height: u16 = 10;
    let total_items: usize = 50;

    let clicked_y = scrollbar_height.saturating_sub(1);
    let target_idx = if clicked_y >= scrollbar_height.saturating_sub(1) {
        total_items.saturating_sub(1)
    } else {
        let position_ratio = f64::from(clicked_y) / f64::from(scrollbar_height.saturating_sub(1));
        ((position_ratio * (total_items.saturating_sub(1)) as f64) as usize)
            .min(total_items.saturating_sub(1))
    };

    assert_eq!(target_idx, total_items - 1);
    assert_eq!(scrollbar_target_index(clicked_y, scrollbar_height, total_items), target_idx);

    let clicked_y: u16 = 0;
    let position_ratio = f64::from(clicked_y) / f64::from(scrollbar_height.saturating_sub(1));
    let target_idx = ((position_ratio * (total_items.saturating_sub(1)) as f64) as usize)
        .min(total_items.saturating_sub(1));

    assert_eq!(target_idx, 0);
    assert_eq!(scrollbar_target_index(clicked_y, scrollbar_height, total_items), target_idx);

    let clicked_y: u16 = 5;
    let position_ratio = f64::from(clicked_y) / f64::from(scrollbar_height.saturating_sub(1));
    let target_idx = ((position_ratio * (total_items.saturating_sub(1)) as f64) as usize)
        .min(total_items.saturating_sub(1));

    // should be roughly in the middle (around 25-27)
    assert!((20..=30).contains(&target_idx));
    assert!((20..=30).contains(&scrollbar_target_index(clicked_y, scrollbar_height, total_items)));
}

#[test]
fn test_search_pane_phase_check() {
    assert!(matches!(Phase::BrowseResults { filter_input_on: false }, Phase::BrowseResults { .. }));
    assert!(!matches!(Phase::Search, Phase::BrowseResults { .. }));
    assert!(!matches!(Phase::SearchTextboxInput, Phase::BrowseResults { .. }));
}

#[test]
fn scrollbar_edges() {
    // A bar one row tall, or no results: always the last (or first) result.
    assert_eq!(scrollbar_target_index(0, 1, 50), 49);
    assert_eq!(scrollbar_target_index(3, 10, 0), 0);
    // 3 * 49 / 9 = 16.33 rounds down.
    assert_eq!(scrollbar_target_index(3, 10, 50), 16);
    assert_eq!(scrollbar_target_index(8, 10, 50), 43);
}

fn config() -> SearchConfig {
    SearchConfig {
        tags: vec![
            SearchTag { label: "Any Tag".to_string(), value: "any".to_string() },
            SearchTag { label: "Artist".to_string(), value: "artist".to_string() },
        ],
        mode: SearchMode::Contains,
    }
}

fn shapes(groups: &InputGroups) -> Vec<RowShape> {
    groups
        .inputs
        .iter()
        .map(|i| match i {
            InputType::Textbox(t) => RowShape::Textbox(t.key),
            InputType::Numberbox(t) => RowShape::Numberbox(t.key),
            InputType::Spinner(s) => RowShape::Spinner(s.key),
            InputType::Button(b) => RowShape::Button(b.key),
            InputType::Separator => RowShape::Separator,
        })
        .collect()
}

fn label(i: &InputType) -> String {
    match i {
        InputType::Textbox(t) | InputType::Numberbox(t) => t.label.clone(),
        InputType::Spinner(s) => s.label.clone(),
        InputType::Button(b) => b.label.clone(),
        InputType::Separator => String::new(),
    }
}

#[test]
fn labels_are_padded_to_eighteen_characters() {
    assert_eq!(label_for("Artist"), " Artist            :");
    assert_eq!(label_for("Artist").chars().count(), 20);
    assert_eq!(label_for("A name longer than eighteen"), " A name longer than eighteen:");
}

#[test]
fn new_column_layout_full() {
    let (groups, buffers) = InputGroups::new(&config(), true, false, true, true, true, true, 100);
    assert_eq!(
        shapes(&groups),
        vec![
            RowShape::Textbox(InputKey::Tag),
            RowShape::Textbox(InputKey::Tag),
            RowShape::Separator,
            RowShape::Textbox(InputKey::CustomQuery),
            RowShape::Separator,
            RowShape::Spinner(InputKey::RatingMode),
            RowShape::Numberbox(InputKey::RatingValue),
            RowShape::Separator,
            RowShape::Spinner(InputKey::Like),
            RowShape::Separator,
            RowShape::Spinner(InputKey::SearchMode),
            RowShape::Spinner(InputKey::FoldCase),
            RowShape::Spinner(InputKey::StripDiacritics),
            RowShape::Separator,
            RowShape::Button(InputKey::Reset),
            RowShape::Button(InputKey::SearchButton),
        ]
    );
    assert_eq!(label(&groups.inputs[0]), " Any Tag           :");
    assert_eq!(label(&groups.inputs[5]), " Rating            :");
    assert_eq!(label(&groups.inputs[14]), " Reset");
    assert_eq!(buffers.len(), 2);
    assert_eq!(buffers[0], (102, None));
    assert_eq!(buffers[1], (103, Some("0".to_string())));
    match &groups.inputs[1] {
        InputType::Textbox(t) => {
            assert_eq!(t.buffer_id, 101);
            assert_eq!(t.filter_key.as_deref(), Some("artist"));
        }
        _ => panic!("expected a textbox"),
    }
    assert!(groups.fold_case());
    assert!(!groups.strip_diacritics());
    assert_eq!(groups.search_mode(), SearchMode::Contains);
}

#[test]
fn new_column_layout_minimal() {
    let (groups, buffers) = InputGroups::new(&config(), false, false, false, false, false, false, 1);
    assert_eq!(
        shapes(&groups),
        vec![
            RowShape::Textbox(InputKey::Tag),
            RowShape::Textbox(InputKey::Tag),
            RowShape::Separator,
            RowShape::Spinner(InputKey::SearchMode),
            RowShape::Spinner(InputKey::FoldCase),
            RowShape::Separator,
            RowShape::Button(InputKey::Reset),
        ]
    );
    assert!(buffers.is_empty());
}

fn column() -> InputGroups {
    InputGroups::new(&config(), false, false, false, false, true, true, 1).0
}

#[test]
fn focus_skips_separators_and_wraps() {
    let mut g = column();
    // rows: 0 tag, 1 tag, 2 sep, 3 rating, 4 value, 5 sep, 6 like, 7 sep,
    // 8 mode, 9 case, 10 diacritics, 11 sep, 12 reset
    g.focused_idx = 1;
    g.next();
    assert_eq!(g.focused_idx, 3);
    g.focused_idx = 12;
    g.next();
    assert_eq!(g.focused_idx, 0);
    g.prev();
    assert_eq!(g.focused_idx, 12);
    g.focused_idx = 3;
    g.prev();
    assert_eq!(g.focused_idx, 1);
    g.focused_idx = 12;
    g.next_non_wrapping();
    assert_eq!(g.focused_idx, 12);
    g.focused_idx = 6;
    g.prev_non_wrapping();
    assert_eq!(g.focused_idx, 4);
    g.first();
    assert_eq!(g.focused_idx, 0);
    g.last();
    assert_eq!(g.focused_idx, 12);
}

#[test]
fn activating_spinners_cycles_and_keeps_case_consistent() {
    let mut g = column();
    g.focused_idx = 10; // ignore diacritics
    let a = g.activate_focused(None);
    assert_eq!(a.result, ActionResult::Search);
    assert!(g.strip_diacritics());
    assert!(g.fold_case());
    g.focused_idx = 9; // case sensitivity
    g.activate_focused(None);
    assert!(!g.fold_case());
    assert!(!g.strip_diacritics());
    g.focused_idx = 8;
    g.activate_focused(None);
    assert_eq!(g.search_mode(), SearchMode::Exact);
    g.focused_idx = 6;
    g.activate_focused(None);
    assert_eq!(g.liked_filter(), Some(StickerFilter::EqualsInt(2)));
    g.focused_idx = 3;
    g.activate_focused(None);
    assert!(g.is_rating_filter_active());
    assert_eq!(g.rating_filter("  4 "), Ok(Some(StickerFilter::EqualsInt(4))));
    assert_eq!(g.rating_filter(""), Ok(Some(StickerFilter::EqualsInt(0))));
    assert_eq!(g.rating_filter("four"), Err(()));
}

#[test]
fn textbox_activation_toggles_insert_mode() {
    let mut g = column();
    g.focused_idx = 0;
    let a = g.activate_focused(None);
    assert_eq!(a.input, InputCommand::InsertMode(1));
    let a = g.activate_focused(Some(1));
    assert_eq!(a.input, InputCommand::NormalMode);
    let a = g.activate_focused(Some(7));
    assert_eq!(a.input, InputCommand::Nothing);
}

#[test]
fn reset_button_resets_every_input() {
    let mut g = column();
    g.focused_idx = 8;
    g.activate_focused(None);
    g.focused_idx = 3;
    g.activate_focused(None);
    g.focused_idx = 12;
    let a = g.activate_focused(None);
    assert_eq!(a.result, ActionResult::Reset);
    assert_eq!(g.search_mode(), SearchMode::Contains);
    assert!(!g.is_rating_filter_active());
    assert_eq!(a.buffers.len(), 3);
    assert!(matches!(a.buffers[0], BufferCommand::Clear(1)));
    assert!(matches!(&a.buffers[2], BufferCommand::SetValue(4, v) if v == "0"));
}

#[test]
fn mode_cycles_come_back() {
    let mut m = SearchMode::Contains;
    for _ in 0..6 {
        m.cycle();
    }
    assert_eq!(m, SearchMode::Contains);
    let mut r = RatingMode::Any;
    r.cycle();
    assert_eq!(r, RatingMode::Equals);
    let mut l = LikedMode::Disliked;
    l.cycle();
    assert_eq!(l, LikedMode::Any);
    assert_eq!(SearchMode::NotExact.label(), "Not exact");
}

#[test]
fn clicking_a_row_focuses_it() {
    let mut g = column();
    g.area = Rect { x: 2, y: 5, width: 20, height: 13 };
    g.focus_input_at(Position { x: 3, y: 5 + 4 });
    assert_eq!(g.focused_idx, 4);
    g.focus_input_at(Position { x: 3, y: 5 + 2 }); // a separator
    assert_eq!(g.focused_idx, 4);
    g.focus_input_at(Position { x: 30, y: 6 }); // outside
    assert_eq!(g.focused_idx, 4);
}

fn results(n: u32) -> QueueState {
    QueueState {
        items: (0..n)
            .map(|i| Song { id: i, file: format!("s{i}"), duration: None, metadata: Vec::new() })
            .collect(),
        marked: Vec::new(),
        selected: if n > 0 { Some(0) } else { None },
    }
}

#[test]
fn search_column_moves_to_results() {
    let mut state = SearchPaneState { phase: Phase::Search, inputs: column(), results: results(0), filter: None };
    let r = state.handle_search_column(SearchColumnAction::Right, true, None);
    assert!(matches!(r, SearchColumnOutcome::Redraw));
    assert_eq!(state.phase, Phase::Search);
    state.results = results(3);
    state.handle_search_column(SearchColumnAction::Right, true, None);
    assert_eq!(state.phase, Phase::BrowseResults { filter_input_on: false });
    state.handle_search_column(SearchColumnAction::Down, true, None);
    assert_eq!(state.inputs.focused_idx, 1);
    match state.handle_search_column(SearchColumnAction::FocusInput, true, None) {
        SearchColumnOutcome::Input(c) => assert_eq!(c, InputCommand::InsertMode(2)),
        _ => panic!("expected an input command"),
    }
}

#[test]
fn results_actions() {
    let mut state = SearchPaneState {
        phase: Phase::BrowseResults { filter_input_on: false },
        inputs: column(),
        results: results(3),
        filter: None,
    };
    state.handle_results(ResultsAction::Up, false);
    assert_eq!(state.results.selected, Some(0));
    state.handle_results(ResultsAction::Up, true);
    assert_eq!(state.results.selected, Some(2));
    state.handle_results(ResultsAction::Down, false);
    assert_eq!(state.results.selected, Some(2));
    match state.handle_results(ResultsAction::Confirm, true) {
        ResultsOutcome::Enqueue { files, replace, hovered } => {
            assert_eq!(files, vec!["s0".to_string(), "s1".to_string(), "s2".to_string()]);
            assert!(replace);
            assert_eq!(hovered, Some(2));
        }
        _ => panic!("expected to replace the queue"),
    }
    state.handle_results(ResultsAction::Top, true);
    state.handle_results(ResultsAction::Select, true);
    assert_eq!(state.results.marked, vec![0]);
    assert_eq!(state.results.selected, Some(1));
    assert!(matches!(state.handle_results(ResultsAction::Confirm, true), ResultsOutcome::Redraw));
    match state.handle_results(ResultsAction::Rate(7), true) {
        ResultsOutcome::SetSticker { name, value, files } => {
            assert_eq!(name, StickerName::Rating);
            assert_eq!(value, "7");
            assert_eq!(files, vec!["s0".to_string()]);
        }
        _ => panic!("expected a sticker"),
    }
    state.handle_results(ResultsAction::Close, true);
    match state.handle_results(ResultsAction::Dislike, true) {
        ResultsOutcome::SetSticker { name, value, files } => {
            assert_eq!(name, StickerName::Like);
            assert_eq!(value, "0");
            assert_eq!(files, vec!["s1".to_string()]);
        }
        _ => panic!("expected a sticker"),
    }
    match state.handle_results(ResultsAction::Right, true) {
        ResultsOutcome::Enqueue { files, replace, .. } => {
            assert_eq!(files, vec!["s1".to_string()]);
            assert!(!replace);
        }
        _ => panic!("expected to enqueue"),
    }
    state.handle_results(ResultsAction::Left, true);
    assert_eq!(state.phase, Phase::Search);
    let (hovered, files) = results_enqueue(&results(2), false);
    assert_eq!(hovered, Some(0));
    assert_eq!(files, vec!["s0".to_string()]);
}

#[test]
fn filter_typing() {
    let mut state = SearchPaneState {
        phase: Phase::BrowseResults { filter_input_on: false },
        inputs: column(),
        results: results(3),
        filter: None,
    };
    state.handle_results(ResultsAction::EnterSearch, true);
    assert_eq!(state.phase, Phase::BrowseResults { filter_input_on: true });
    assert_eq!(state.filter.as_deref(), Some(""));
    assert!(state.handle_filter_key(FilterKey::Char('a')));
    assert!(state.handle_filter_key(FilterKey::Char('b')));
    assert!(!state.handle_filter_key(FilterKey::Backspace));
    assert_eq!(state.filter.as_deref(), Some("a"));
    state.handle_filter_key(FilterKey::Confirm);
    assert_eq!(state.phase, Phase::BrowseResults { filter_input_on: false });
    assert_eq!(state.filter.as_deref(), Some("a"));
    state.handle_filter_key(FilterKey::Close);
    assert_eq!(state.filter, None);
}

#[test]
fn result_context_menu() {
    let state = SearchPaneState {
        phase: Phase::BrowseResults { filter_input_on: false },
        inputs: column(),
        results: results(2),
        filter: None,
    };
    let menu = state.result_menu();
    let labels: Vec<&str> = menu.iter().map(|m| m.label.as_str()).collect();
    assert_eq!(
        labels,
        vec![
            "Add all to queue",
            "Replace queue with all",
            "Create playlist from all",
            "Add all to playlist",
            "Create playlist",
            "Add to playlist",
            "Cancel"
        ]
    );
    assert!(matches!(&menu[1].action, MenuAction::Enqueue { files, replace: true } if files.len() == 2));
    assert!(matches!(&menu[4].action, MenuAction::CreatePlaylist(files) if files == &vec!["s0".to_string()]));
    let empty = SearchPaneState { phase: Phase::Search, inputs: column(), results: results(0), filter: None };
    assert_eq!(empty.result_menu().len(), 3);
}

fn row_values(tag_artist: &str) -> Vec<String> {
    let mut v: Vec<String> = (0..13).map(|_| String::new()).collect();
    v[1] = tag_artist.to_string();
    v
}

#[test]
fn search_plan_builds_tag_filters() {
    let g = column();
    match g.search_plan(&row_values("Nina"), "0", true) {
        SearchPlan::Query { filters, fold_case, strip_diacritics, rating, liked } => {
            assert_eq!(filters.len(), 1);
            assert_eq!(filters[0].tag, "artist");
            assert_eq!(filters[0].value, "Nina");
            assert_eq!(filters[0].kind, FilterKind::Contains);
            assert_eq!(fold_case, g.fold_case);
            assert_eq!(strip_diacritics, g.strip_diacritics);
            assert!(rating.is_none());
            assert!(liked.is_none());
        }
        _ => panic!("expected a query"),
    }
    assert!(matches!(g.search_plan(&row_values(""), "0", true), SearchPlan::Clear));
    assert!(matches!(g.search_plan(&row_values("Nina"), "abc", true), SearchPlan::InvalidRating));
}

#[test]
fn search_plan_by_stickers_alone() {
    let mut g = column();
    g.rating_mode = RatingMode::GreaterThan;
    match g.search_plan(&row_values(""), "3", true) {
        SearchPlan::ByStickers { rating, liked } => {
            assert_eq!(rating, Some(StickerFilter::GreaterThanInt(3)));
            assert!(liked.is_none());
        }
        _ => panic!("expected a sticker listing"),
    }
    assert!(matches!(g.search_plan(&row_values(""), "3", false), SearchPlan::Clear));
}

#[test]
fn sticker_filter_keeps_listed_files_in_order() {
    let files = vec!["a".to_string(), "b".to_string(), "c".to_string()];
    let allowed = vec!["c".to_string(), "a".to_string()];
    assert_eq!(files_kept(&files, &allowed), vec![0, 2]);
    assert!(files_kept(&files, &Vec::new()).is_empty());
}
