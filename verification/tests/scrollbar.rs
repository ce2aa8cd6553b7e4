use rmpc::geometry::{Position, Rect};
use rmpc::search::{scrollbar_jump, Phase};

#[test]
fn scrollbar_clicks_count_only_while_browsing_results() {
    let bar = Some(Rect { x: 79, y: 2, width: 1, height: 10 });
    let browse = Phase::BrowseResults { filter_input_on: false };
    let at = |y: u16| Position { x: 79, y: 2 + y };
    assert_eq!(scrollbar_jump(browse, true, bar, true, at(9), 50), Some(49));
    assert_eq!(scrollbar_jump(browse, true, bar, true, at(0), 50), Some(0));
    let mid = scrollbar_jump(browse, true, bar, true, at(5), 50).unwrap();
    assert!((20..=30).contains(&mid));
    assert_eq!(scrollbar_jump(Phase::Search, true, bar, true, at(5), 50), None);
    assert_eq!(scrollbar_jump(Phase::SearchTextboxInput, true, bar, true, at(5), 50), None);
    assert_eq!(scrollbar_jump(browse, false, bar, true, at(5), 50), None);
    assert_eq!(scrollbar_jump(browse, true, None, true, at(5), 50), None);
    assert_eq!(scrollbar_jump(browse, true, bar, false, at(5), 50), None);
    assert_eq!(scrollbar_jump(browse, true, bar, true, Position { x: 78, y: 5 }, 50), None);
}
