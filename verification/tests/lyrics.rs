use rmpc::lyrics::{current_line, lyric_rows, LyricLine, LyricRow, LyricsPane};

fn line(ms: u64, content: &str) -> LyricLine {
    LyricLine { time_ms: ms, stamp: format!("{:02}:{:02}", ms / 60000, ms / 1000 % 60), content: content.to_string() }
}

fn texts(rows: Vec<Option<LyricRow>>) -> Vec<Option<(String, bool)>> {
    rows.into_iter().map(|r| r.map(|r| (r.text, r.highlighted))).collect()
}

fn some(t: &str, h: bool) -> Option<(String, bool)> {
    Some((t.to_string(), h))
}

#[test]
fn current_line_is_the_latest_started() {
    let lines = vec![line(0, "a"), line(1000, "b"), line(1000, "b2"), line(5000, "c")];
    assert_eq!(current_line(&lines, 3000), (1, true));
    assert_eq!(current_line(&lines, 6000), (3, true));
    assert_eq!(current_line(&vec![line(500, "x")], 100), (0, false));
    assert_eq!(current_line(&Vec::new(), 100), (0, false));
}

#[test]
fn rows_center_the_current_line() {
    let lines = vec![line(0, "a"), line(1000, "b"), line(2000, "c d"), line(3000, "e")];
    let rows = texts(lyric_rows(&lines, 1, true, 5, 80, false));
    assert_eq!(rows, vec![None, some("a", false), some("b", true), some("c d", false), some("e", false)]);
    let narrow = texts(lyric_rows(&lines, 2, false, 4, 1, false));
    assert_eq!(narrow, vec![some("a", false), some("b", false), some("c", false), some("d", false)]);
    let stamped = texts(lyric_rows(&lines, 1, true, 3, 80, true));
    assert_eq!(stamped, vec![some("[00:00] a", false), some("[00:01] b", true), some("[00:02] c d", false)]);
    assert_eq!(texts(lyric_rows(&Vec::new(), 0, false, 2, 80, false)), vec![None, None]);
}

#[test]
fn next_line_is_scheduled_once() {
    let lines = vec![line(0, "a"), line(1500, "b")];
    let mut pane = LyricsPane::new();
    assert_eq!(pane.schedule_next(&lines, 0, 1000), Some(500));
    assert_eq!(pane.last_requested_line_idx, 1);
    assert_eq!(pane.schedule_next(&lines, 0, 1200), None);
    assert_eq!(pane.schedule_next(&lines, 1, 1600), None);
    pane.reset_schedule();
    assert_eq!(pane.schedule_next(&lines, 0, 2000), Some(0));
}
