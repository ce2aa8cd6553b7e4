use rmpc::screens::search::{
    KeyCode, KeyResult, ListMove, ScreenEffect, ScreenFocus, ScreenKey, ScreenOutcome, ScreenPhase, SearchScreen,
};
use rmpc::screens::{CommonAction, Tag};
use rmpc::search::{FilterKind, SearchMode};

fn act(a: CommonAction) -> ScreenKey {
    ScreenKey { action: Some(a), code: KeyCode::Other }
}

fn ch(c: char) -> ScreenKey {
    ScreenKey { action: None, code: KeyCode::Char(c) }
}

fn out(result: KeyResult, effect: ScreenEffect, preview: bool) -> ScreenOutcome {
    ScreenOutcome { result, effect, preview }
}

#[test]
fn screen_starts_on_the_first_textbox() {
    let s = SearchScreen::new();
    assert_eq!(s.textboxes.len(), 7);
    assert_eq!(s.textboxes[1].label, " Artist          :");
    assert!(s.textboxes[5].filter_key == Tag::File);
    assert_eq!(s.focused, ScreenFocus::Textboxes(0));
    assert_eq!(s.phase, ScreenPhase::Search);
    assert!(s.search_query().is_none());
}

#[test]
fn focus_goes_round_the_column() {
    let mut s = SearchScreen::new();
    for _ in 0..7 {
        s.next();
    }
    assert_eq!(s.focused, ScreenFocus::Filters(0));
    s.next();
    s.next();
    assert_eq!(s.focused, ScreenFocus::Buttons(0));
    s.next();
    assert_eq!(s.focused, ScreenFocus::Textboxes(0));
    s.prev();
    assert_eq!(s.focused, ScreenFocus::Buttons(0));
    assert_eq!(s.handle_key(act(CommonAction::Top), false, false, false), out(KeyResult::Render, ScreenEffect::Nothing, false));
    assert_eq!(s.focused, ScreenFocus::Textboxes(0));
}

#[test]
fn typing_builds_the_query() {
    let mut s = SearchScreen::new();
    s.focused = ScreenFocus::Textboxes(1);
    assert_eq!(s.handle_key(act(CommonAction::Confirm), false, false, false), out(KeyResult::Render, ScreenEffect::Nothing, false));
    assert_eq!(s.phase, ScreenPhase::TextboxInput);
    s.handle_key(ch('a'), false, false, false);
    s.handle_key(ch('b'), false, false, false);
    s.handle_key(ScreenKey { action: None, code: KeyCode::Backspace }, false, false, false);
    s.handle_key(ch('c'), false, false, false);
    assert_eq!(s.textboxes[1].value, "ac");
    assert_eq!(s.handle_key(act(CommonAction::Close), false, false, false), out(KeyResult::Render, ScreenEffect::Search, true));
    assert_eq!(s.phase, ScreenPhase::Search);
    let q = s.search_query().expect("a query");
    assert_eq!(q.filters.len(), 1);
    assert!(q.filters[0].tag == Tag::Artist);
    assert_eq!(q.filters[0].value, "ac");
    assert_eq!(q.kind, FilterKind::Contains);
    assert!(!q.case_sensitive);
}

#[test]
fn filter_inputs_and_reset() {
    let mut s = SearchScreen::new();
    s.focused = ScreenFocus::Filters(0);
    assert_eq!(s.handle_key(act(CommonAction::Confirm), false, false, false), out(KeyResult::Render, ScreenEffect::Search, true));
    assert_eq!(s.mode, SearchMode::Exact);
    s.focused = ScreenFocus::Filters(1);
    s.handle_key(act(CommonAction::Confirm), false, false, false);
    assert!(s.case_sensitive);
    s.textboxes[0].value = "x".to_string();
    s.focused = ScreenFocus::Buttons(0);
    assert_eq!(s.handle_key(act(CommonAction::Confirm), true, false, false), out(KeyResult::Render, ScreenEffect::ClearResults, true));
    assert_eq!(s.mode, SearchMode::Contains);
    assert!(!s.case_sensitive);
    assert_eq!(s.textboxes[0].value, "");
    assert_eq!(s.handle_key(act(CommonAction::FocusInput), true, false, false), out(KeyResult::NotHandled, ScreenEffect::Nothing, false));
}

#[test]
fn browsing_the_songs_found() {
    let mut s = SearchScreen::new();
    assert_eq!(s.handle_key(act(CommonAction::Right), false, false, false), out(KeyResult::Render, ScreenEffect::Nothing, false));
    assert_eq!(s.phase, ScreenPhase::Search);
    assert_eq!(s.handle_key(act(CommonAction::Right), true, false, false), out(KeyResult::Render, ScreenEffect::Nothing, true));
    assert_eq!(s.phase, ScreenPhase::List { filter_input_on: false });
    assert_eq!(s.handle_key(act(CommonAction::Down), true, true, false), out(KeyResult::Render, ScreenEffect::List(ListMove::Next), true));
    assert_eq!(s.handle_key(act(CommonAction::Select), true, true, false), out(KeyResult::Render, ScreenEffect::List(ListMove::MarkAndNext), false));
    assert_eq!(s.handle_key(act(CommonAction::Add), true, true, true), out(KeyResult::Render, ScreenEffect::AddMarked, false));
    assert_eq!(s.handle_key(act(CommonAction::Confirm), true, false, false), out(KeyResult::SkipRender, ScreenEffect::Nothing, false));
    assert_eq!(s.handle_key(act(CommonAction::Confirm), true, true, false), out(KeyResult::Render, ScreenEffect::AddSelected, false));
    assert_eq!(s.handle_key(act(CommonAction::EnterSearch), true, true, false), out(KeyResult::Render, ScreenEffect::Nothing, false));
    assert_eq!(s.phase, ScreenPhase::List { filter_input_on: true });
    s.handle_key(ch('z'), true, true, false);
    assert_eq!(s.filter.as_deref(), Some("z"));
    assert_eq!(s.handle_key(act(CommonAction::Confirm), true, true, false), out(KeyResult::Render, ScreenEffect::List(ListMove::NextMatch), true));
    assert_eq!(s.filter.as_deref(), Some("z"));
    assert_eq!(s.handle_key(act(CommonAction::Left), true, true, false), out(KeyResult::Render, ScreenEffect::Nothing, true));
    assert_eq!(s.phase, ScreenPhase::Search);
}
