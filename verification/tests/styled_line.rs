use rmpc::line::Cut;
use rmpc::song::{MetadataTag, Song, SongProperty, TagResolutionStrategy};
use rmpc::spans::{PropertyKind, StyledKind, StyledProperty};
use rmpc::styled_line::{split_lines, LineSpan, StyledLine};

fn text(t: &str, style: Option<u8>) -> StyledProperty<u8> {
    StyledProperty { kind: StyledKind::Text(t.to_string()), style, default: None }
}

fn truncate(length: usize, from_start: bool) -> StyledProperty<u8> {
    let group = StyledProperty {
        kind: StyledKind::Group(vec![text("ab", None), text("cd", None), text("ef", None), text("gh", None)]),
        style: None,
        default: None,
    };
    StyledProperty { kind: StyledKind::Truncate { content: Box::new(group), length, from_start }, style: None, default: None }
}

fn song() -> Song {
    Song {
        id: 0,
        file: "dir/file.mp3".to_string(),
        duration: None,
        metadata: vec![("title".to_string(), MetadataTag::Single("A very long title".to_string()))],
    }
}

fn texts(l: &StyledLine<u8>) -> Vec<String> {
    l.spans.iter().map(|s| s.text.clone()).collect()
}

fn wide() -> Cut {
    Cut { max_len: 999, ellipsis: "...".to_string() }
}

#[test]
fn as_line_ellipsized() {
    let s = song();
    let line = |l: usize, fs: bool| truncate(l, fs).as_line_ellipsized(&s, None, &wide(), "", TagResolutionStrategy::All).unwrap();
    assert_eq!(texts(&line(3, true)), vec!["f", "gh"]);
    assert_eq!(texts(&line(3, false)), vec!["ab", "c"]);
    assert_eq!(texts(&line(8, true)), vec!["ab", "cd", "ef", "gh"]);
    assert_eq!(texts(&line(8, false)), vec!["ab", "cd", "ef", "gh"]);
    assert_eq!(texts(&line(99, true)), vec!["ab", "cd", "ef", "gh"]);
    assert_eq!(texts(&line(99, false)), vec!["ab", "cd", "ef", "gh"]);
}

#[test]
fn group_members_keep_their_styles() {
    let s = song();
    let title = StyledProperty { kind: StyledKind::Property(PropertyKind::Song(SongProperty::Title)), style: Some(4), default: None };
    let group = StyledProperty { kind: StyledKind::Group(vec![title, text(" | ", None)]), style: Some(9), default: None };
    let cut = Cut { max_len: 6, ellipsis: "...".to_string() };
    let l = group.as_line_ellipsized(&s, None, &cut, "", TagResolutionStrategy::All).unwrap();
    assert_eq!(l.style, Some(9));
    assert_eq!(texts(&l), vec!["A v...", " | "]);
    let styles: Vec<Vec<Option<u8>>> = l.spans.iter().map(|s: &LineSpan<u8>| s.styles.clone()).collect();
    assert_eq!(styles, vec![vec![Some(4)], vec![None]]);
    let missing = StyledProperty {
        kind: StyledKind::Property(PropertyKind::Song(SongProperty::Album)),
        style: None,
        default: Some(Box::new(text("none", Some(2)))),
    };
    let l = missing.as_line_ellipsized(&s, None, &cut, "", TagResolutionStrategy::All).unwrap();
    assert_eq!(texts(&l), vec!["none"]);
    assert_eq!(l.style, Some(2));
}

#[test]
fn lines_split_as_str_lines_does() {
    assert_eq!(split_lines("a\nb\r\nc"), vec!["a", "b", "c"]);
    assert_eq!(split_lines(""), Vec::<String>::new());
    assert_eq!(split_lines("a\n"), vec!["a"]);
    assert_eq!(split_lines("\n\nx\r"), vec!["", "", "x\r"]);
    let s = "one\r\ntwo\n\nthree\r";
    assert_eq!(split_lines(s), s.lines().map(|l| l.to_string()).collect::<Vec<_>>());
}
