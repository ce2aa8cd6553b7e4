use rmpc::line::Cut;
use rmpc::queue_header::column_sort_keys;
use rmpc::property::{Property, PropertyKindOrText, Transform};
use rmpc::song::{format_duration, MetadataTag, Song, SongProperty, TagResolutionStrategy};
use rmpc::text::{ellipsize, join_strings, parse_i32, to_chars, trim};

fn song_with(tags: Vec<(&str, MetadataTag)>) -> Song {
    Song {
        id: 1,
        file: "music/artist/01 - song.flac".to_string(),
        duration: Some(125),
        metadata: tags.into_iter().map(|(k, v)| (k.to_string(), v)).collect(),
    }
}

fn single(v: &str) -> MetadataTag {
    MetadataTag::Single(v.to_string())
}

fn text(s: &str) -> Property {
    Property { kind: PropertyKindOrText::Text(s.to_string()), default: None }
}

fn prop(p: SongProperty) -> Property {
    Property { kind: PropertyKindOrText::Property(p), default: None }
}

#[test]
fn durations_are_minutes_and_seconds() {
    assert_eq!(format_duration(125), "2:05");
    assert_eq!(format_duration(0), "0:00");
    assert_eq!(format_duration(3600), "60:00");
}

#[test]
fn song_titles_and_files() {
    let s = song_with(vec![(
        "artist",
        MetadataTag::Multiple(vec!["A".to_string(), "B".to_string()]),
    )]);
    assert_eq!(s.title_str(", "), "Untitled");
    assert_eq!(s.artist_str(", "), "A, B");
    assert_eq!(s.file_name().as_deref(), Some("01 - song"));
    assert_eq!(s.file_ext().as_deref(), Some("flac"));
}

#[test]
fn song_properties() {
    let s = song_with(vec![
        ("track", single("7")),
        ("pos", single("4")),
        ("disc", single("2")),
        ("title", MetadataTag::Multiple(vec!["x".to_string(), "y".to_string()])),
    ]);
    assert_eq!(s.format(&SongProperty::Track, "", TagResolutionStrategy::All).as_deref(), Some("07"));
    assert_eq!(s.format(&SongProperty::Position, "", TagResolutionStrategy::All).as_deref(), Some("5"));
    assert_eq!(s.format(&SongProperty::Disc, "", TagResolutionStrategy::All).as_deref(), Some("2"));
    assert_eq!(s.format(&SongProperty::Duration, "", TagResolutionStrategy::All).as_deref(), Some("2:05"));
    assert_eq!(s.format(&SongProperty::Title, "/", TagResolutionStrategy::All).as_deref(), Some("x/y"));
    assert_eq!(s.format(&SongProperty::Title, "/", TagResolutionStrategy::Last).as_deref(), Some("y"));
    assert_eq!(s.format(&SongProperty::Title, "/", TagResolutionStrategy::Nth(5)).as_deref(), Some("y"));
    assert_eq!(s.format(&SongProperty::Album, "/", TagResolutionStrategy::First), None);
    let t = song_with(vec![("track", single("A1"))]);
    assert_eq!(t.format(&SongProperty::Track, "", TagResolutionStrategy::All).as_deref(), Some("A1"));
}

#[test]
fn text_formats_ignore_the_fallback() {
    let p = Property { kind: PropertyKindOrText::Text("x".to_string()), default: Some(Box::new(text("y"))) };
    assert_eq!(p.as_string(None, None, "", TagResolutionStrategy::All).as_deref(), Some("x"));
}

#[test]
fn missing_properties_use_the_fallback() {
    let s = song_with(vec![]);
    let p = Property { kind: PropertyKindOrText::Property(SongProperty::Title), default: Some(Box::new(text("fallbacktext"))) };
    assert_eq!(p.as_string(Some(&s), None, "", TagResolutionStrategy::All).as_deref(), Some("fallbacktext"));
    let group = Property {
        kind: PropertyKindOrText::Group(vec![
            text("inner"),
            Property { kind: PropertyKindOrText::Property(SongProperty::Album), default: Some(Box::new(text("fallback"))) },
        ]),
        default: None,
    };
    let outer = Property { kind: PropertyKindOrText::Group(vec![group, text("outer")]), default: None };
    assert_eq!(outer.as_string(Some(&s), None, "", TagResolutionStrategy::All).as_deref(), Some("innerfallbackouter"));
    let failing = Property { kind: PropertyKindOrText::Group(vec![text("a"), prop(SongProperty::Album)]), default: None };
    assert_eq!(failing.as_string(Some(&s), None, "", TagResolutionStrategy::All), None);
}

#[test]
fn truncation_and_replacement() {
    let truncate = |from_start: bool| Property {
        kind: PropertyKindOrText::Transform(Transform::Truncate {
            content: Box::new(text("abcdefgh")),
            length: 3,
            from_start,
        }),
        default: None,
    };
    assert_eq!(truncate(true).as_string(None, None, "", TagResolutionStrategy::All).as_deref(), Some("fgh"));
    assert_eq!(truncate(false).as_string(None, None, "", TagResolutionStrategy::All).as_deref(), Some("abc"));
    let replace = Property {
        kind: PropertyKindOrText::Transform(Transform::Replace {
            content: Box::new(text("flac")),
            replacements: vec![("mp3".to_string(), text("lossy")), ("flac".to_string(), text("lossless"))],
        }),
        default: None,
    };
    assert_eq!(replace.as_string(None, None, "", TagResolutionStrategy::All).as_deref(), Some("lossless"));
}

#[test]
fn stickers_and_matching() {
    let s = song_with(vec![("title", single("Hello World"))]);
    let stickers = vec![("rating".to_string(), "5".to_string())];
    let sticker = Property { kind: PropertyKindOrText::Sticker("rating".to_string()), default: None };
    assert_eq!(sticker.as_string(Some(&s), Some(&stickers), "", TagResolutionStrategy::All).as_deref(), Some("5"));
    let formats = vec![prop(SongProperty::Title)];
    assert!(s.matches(&formats, "hello", None));
    assert!(!s.matches(&formats, "goodbye", None));
}

#[test]
fn text_helpers() {
    assert_eq!(ellipsize("abcdefgh", 5, "..."), "ab...");
    assert_eq!(ellipsize("abc", 5, "..."), "abc");
    assert_eq!(join_strings(&vec!["a".to_string(), "b".to_string()], "/"), "a/b");
    assert_eq!(parse_i32(&to_chars("-12")), Some(-12));
    assert_eq!(parse_i32(&to_chars("2147483648")), None);
    assert_eq!(trim(&to_chars("  x y ")), to_chars("x y"));
}

#[test]
fn row_text_cuts_each_piece() {
    let s = song_with(vec![("title", single("A very long title")), ("artist", single("Bo"))]);
    let cut = Cut { max_len: 6, ellipsis: "...".to_string() };
    let group = Property {
        kind: PropertyKindOrText::Group(vec![prop(SongProperty::Title), text(" - "), prop(SongProperty::Artist)]),
        default: None,
    };
    assert_eq!(
        group.as_line_ellipsized(&s, None, &cut, "", TagResolutionStrategy::All).as_deref(),
        Some("A v... - Bo")
    );
    let missing = Property { kind: PropertyKindOrText::Property(SongProperty::Album), default: Some(Box::new(text("none at all"))) };
    assert_eq!(missing.as_line_ellipsized(&s, None, &cut, "", TagResolutionStrategy::All).as_deref(), Some("non..."));
    let stickers = vec![("rating".to_string(), "10".to_string())];
    let sticker = Property { kind: PropertyKindOrText::Sticker("rating".to_string()), default: None };
    assert_eq!(sticker.as_line_ellipsized(&s, Some(&stickers), &cut, "", TagResolutionStrategy::All).as_deref(), Some("10"));
    assert_eq!(sticker.as_line_ellipsized(&s, None, &cut, "", TagResolutionStrategy::All), None);
}

#[test]
fn column_keys_for_sorting_the_queue() {
    let queue = vec![
        song_with(vec![("title", single("b"))]),
        song_with(vec![]),
    ];
    let stickers = vec![Some(vec![("rating".to_string(), "5".to_string())]), None];
    let formats = vec![
        text("x"),
        prop(SongProperty::Title),
        Property { kind: PropertyKindOrText::Sticker("rating".to_string()), default: None },
    ];
    assert!(column_sort_keys(&formats, 0, &queue, &stickers, TagResolutionStrategy::All).is_none());
    assert!(column_sort_keys(&formats, 7, &queue, &stickers, TagResolutionStrategy::All).is_none());
    assert_eq!(
        column_sort_keys(&formats, 1, &queue, &stickers, TagResolutionStrategy::All),
        Some(vec!["b".to_string(), String::new()])
    );
    assert_eq!(
        column_sort_keys(&formats, 2, &queue, &stickers, TagResolutionStrategy::All),
        Some(vec!["5".to_string(), String::new()])
    );
}

#[test]
fn an_overflowing_position_only_matters_to_formats_that_show_it() {
    let s = song_with(vec![("title", single("T")), ("pos", single("18446744073709551615"))]);
    let title = prop(SongProperty::Title);
    assert_eq!(title.as_string(Some(&s), None, "", TagResolutionStrategy::All), Some("T".to_string()));
    assert!(s.matches(&vec![prop(SongProperty::Title)], "t", None));
}

#[test]
fn whitespace_is_what_char_is_whitespace_says() {
    for u in 0u32..0x31000 {
        if let Some(c) = char::from_u32(u) {
            assert_eq!(trim(&vec![c]).is_empty(), c.is_whitespace(), "{u:#x}");
        }
    }
}
