use rmpc::song::{SongProperty, TagResolutionStrategy};
use rmpc::spans::{property_line, queue_timing};
use rmpc::song::Song;
use rmpc::spans::{PropertyKind, SpanContext, Spans, StatusField, StyledKind, StyledProperty, WidgetProperty};
use rmpc::status::{OnOffOneshot, PlayState, Status, StatusProperty};

fn ctx(scan: Option<&str>) -> SpanContext {
    SpanContext {
        status: Status {
            state: PlayState::Play,
            repeat: false,
            random: true,
            consume: OnOffOneshot::Off,
            single: OnOffOneshot::On,
            volume: 40,
            bitrate: None,
            xfade: None,
        },
        duration: 180,
        elapsed: 60,
        queue_durations: Vec::new(),
        current: None,
        partition: "default".to_string(),
        queue_length: "1,024".to_string(),
        active_tab: "Queue".to_string(),
        volume_bar: "|||".to_string(),
        scan_status: scan.map(|s| s.to_string()),
    }
}

fn text(t: &str, style: Option<u8>) -> StyledProperty<u8> {
    StyledProperty { kind: StyledKind::Text(t.to_string()), style, default: None }
}

fn with_default(kind: StyledKind<u8>, default: StyledProperty<u8>) -> StyledProperty<u8> {
    StyledProperty { kind, style: None, default: Some(Box::new(default)) }
}

fn many(v: &[(&str, u8)]) -> Option<Spans<u8>> {
    Some(Spans::Many(v.iter().map(|(t, s)| (t.to_string(), *s)).collect()))
}

fn resolve(p: &StyledProperty<u8>, c: &SpanContext) -> Option<Spans<u8>> {
    p.as_span(None, None, c, ", ", TagResolutionStrategy::All, 0)
}

fn same(a: Option<Spans<u8>>, b: Option<Spans<u8>>) -> bool {
    match (a, b) {
        (None, None) => true,
        (Some(Spans::One(x, s)), Some(Spans::One(y, t))) => x == y && s == t,
        (Some(Spans::Many(x)), Some(Spans::Many(y))) => x == y,
        _ => false,
    }
}

fn group(items: Vec<StyledProperty<u8>>) -> StyledProperty<u8> {
    StyledProperty { kind: StyledKind::Group(items), style: None, default: None }
}

#[test]
fn text_takes_own_style_or_base() {
    let c = ctx(None);
    assert!(same(resolve(&text("a", Some(3)), &c), Some(Spans::One("a".to_string(), 3))));
    assert!(same(resolve(&text("a", None), &c), Some(Spans::One("a".to_string(), 0))));
}

#[test]
fn missing_song_value_uses_fallback() {
    let c = ctx(None);
    let title = with_default(StyledKind::Property(PropertyKind::Song(SongProperty::Title)), text("none", Some(2)));
    assert!(same(resolve(&title, &c), Some(Spans::One("none".to_string(), 2))));
    let bitrate = with_default(StyledKind::Property(PropertyKind::Status(StatusProperty::Bitrate)), text("-", None));
    assert!(same(resolve(&bitrate, &c), Some(Spans::One("-".to_string(), 0))));
}

#[test]
fn fields_and_widgets() {
    let c = ctx(None);
    let field = StyledProperty { kind: StyledKind::Property(PropertyKind::Field(StatusField::ActiveTab)), style: Some(1), default: None };
    assert!(same(resolve(&field, &c), Some(Spans::One("Queue".to_string(), 1))));
    let states = StyledProperty {
        kind: StyledKind::Property(PropertyKind::Widget(WidgetProperty::States { active_style: 7, separator_style: 8 })),
        style: None,
        default: None,
    };
    assert!(same(
        resolve(&states, &c),
        many(&[("Repeat", 0), (" / ", 8), ("Random", 7), (" / ", 8), ("Consume", 0), (" / ", 8), ("Single", 7)])
    ));
    let scan = with_default(StyledKind::Property(PropertyKind::Widget(WidgetProperty::ScanStatus)), text("x", None));
    assert!(same(resolve(&scan, &c), None));
    assert!(same(resolve(&scan, &ctx(Some("U"))), Some(Spans::One("U".to_string(), 0))));
}

#[test]
fn group_is_nothing_when_a_member_is_nothing() {
    let c = ctx(None);
    let g = group(vec![text("a", Some(1)), text("b", Some(2))]);
    assert!(same(resolve(&g, &c), many(&[("a", 1), ("b", 2)])));
    let scan = StyledProperty { kind: StyledKind::Property(PropertyKind::Widget(WidgetProperty::ScanStatus)), style: None, default: None };
    let broken = StyledProperty { kind: StyledKind::Group(vec![text("a", None), scan]), style: None, default: Some(Box::new(text("d", None))) };
    assert!(same(resolve(&broken, &c), None));
}

#[test]
fn truncation_of_span_lists() {
    let c = ctx(None);
    let parts = || group(vec![text("ab", Some(1)), text("cde", Some(2)), text("f", Some(3))]);
    let end = StyledProperty {
        kind: StyledKind::Truncate { content: Box::new(parts()), length: 4, from_start: false },
        style: None,
        default: None,
    };
    assert!(same(resolve(&end, &c), many(&[("ab", 1), ("cd", 2)])));
    let kept: String = match resolve(&end, &c) {
        Some(Spans::Many(v)) => v.into_iter().map(|(t, _)| t).collect(),
        _ => String::new(),
    };
    assert_eq!(kept, "abcdef".chars().take(4).collect::<String>());
    let start = StyledProperty {
        kind: StyledKind::Truncate { content: Box::new(parts()), length: 4, from_start: true },
        style: None,
        default: None,
    };
    assert!(same(resolve(&start, &c), many(&[("cde", 2), ("f", 3)])));
    let one = StyledProperty {
        kind: StyledKind::Truncate { content: Box::new(text("hello", Some(4))), length: 2, from_start: true },
        style: None,
        default: None,
    };
    assert!(same(resolve(&one, &c), Some(Spans::One("lo".to_string(), 4))));
}

#[test]
fn replacement_of_single_and_grouped_text() {
    let c = ctx(None);
    let single = StyledProperty {
        kind: StyledKind::Replace { content: Box::new(text("x", None)), replacements: vec![("x".to_string(), text("y", Some(5)))] },
        style: None,
        default: None,
    };
    assert!(same(resolve(&single, &c), Some(Spans::One("y".to_string(), 5))));
    let grouped = StyledProperty {
        kind: StyledKind::Replace {
            content: Box::new(group(vec![text("a", Some(1)), text("b", Some(2))])),
            replacements: vec![("ab".to_string(), text("z", None))],
        },
        style: None,
        default: None,
    };
    assert!(same(resolve(&grouped, &c), Some(Spans::One("z".to_string(), 0))));
    let untouched = StyledProperty {
        kind: StyledKind::Replace { content: Box::new(text("q", Some(1))), replacements: vec![("x".to_string(), text("y", None))] },
        style: None,
        default: None,
    };
    assert!(same(resolve(&untouched, &c), Some(Spans::One("q".to_string(), 1))));
}

#[test]
fn a_property_line_joins_the_spans_of_its_formats() {
    let c = ctx(None);
    let scan = StyledProperty { kind: StyledKind::Property(PropertyKind::Widget(WidgetProperty::ScanStatus)), style: None, default: None };
    let props = vec![
        text("[", Some(3)),
        scan,
        group(vec![text("a", Some(1)), text("b", None)]),
        StyledProperty { kind: StyledKind::Property(PropertyKind::Field(StatusField::Elapsed)), style: None, default: None },
    ];
    let line = property_line(&props, None, None, &c, ", ", TagResolutionStrategy::All, 9);
    assert_eq!(
        line,
        vec![("[".to_string(), 3), ("a".to_string(), 1), ("b".to_string(), 9), ("1:00".to_string(), 9)]
    );
}

fn field(f: StatusField) -> StyledProperty<u8> {
    StyledProperty { kind: StyledKind::Property(PropertyKind::Field(f)), style: None, default: None }
}

fn text_of(p: &StyledProperty<u8>, c: &SpanContext) -> String {
    match resolve(p, c) {
        Some(Spans::One(t, _)) => t,
        _ => panic!("expected one span"),
    }
}

fn queue_ctx(elapsed: u64) -> SpanContext {
    let queue: Vec<Song> =
        (0..3).map(|id| Song { id, file: format!("s{id}"), duration: Some(123), metadata: Vec::new() }).collect();
    let (durations, current) = queue_timing(&queue, Some(0));
    let mut c = ctx(None);
    c.elapsed = elapsed;
    c.duration = 123;
    c.queue_durations = durations;
    c.current = current;
    c
}

#[test]
fn queue_time_property_resolves_correctly() {
    let total = |sep: Option<&str>| field(StatusField::QueueTimeTotal { separator: sep.map(|s| s.to_string()) });
    let remaining = |sep: Option<&str>| field(StatusField::QueueTimeRemaining { separator: sep.map(|s| s.to_string()) });
    assert_eq!(text_of(&total(None), &queue_ctx(0)), "6:09");
    assert_eq!(text_of(&total(Some("")), &queue_ctx(0)), "6m9s");
    assert_eq!(text_of(&remaining(None), &queue_ctx(0)), "6:09");
    assert_eq!(text_of(&remaining(Some("")), &queue_ctx(0)), "6m9s");
    assert_eq!(text_of(&remaining(None), &queue_ctx(20)), "5:49");
    assert_eq!(text_of(&remaining(None), &queue_ctx(60)), "5:09");
    assert_eq!(text_of(&total(Some(",")), &queue_ctx(0)), "6m,9s");
    assert_eq!(text_of(&remaining(Some(",")), &queue_ctx(0)), "6m,9s");
    assert_eq!(text_of(&remaining(Some(",")), &queue_ctx(20)), "5m,49s");
}

#[test]
fn queue_time_property_no_current_song() {
    let c = ctx(None);
    assert_eq!(text_of(&field(StatusField::QueueTimeTotal { separator: None }), &c), "0:00");
    assert_eq!(text_of(&field(StatusField::QueueTimeRemaining { separator: None }), &c), "0:00");
    assert_eq!(text_of(&field(StatusField::QueueTimeTotal { separator: Some(",".to_string()) }), &c), "0s");
    assert_eq!(text_of(&field(StatusField::QueueTimeRemaining { separator: Some(",".to_string()) }), &c), "0s");
}

#[test]
fn queue_time_property_no_duration() {
    let queue = vec![Song { id: 0, file: "no_duration.mp3".to_string(), duration: None, metadata: Vec::new() }];
    let (durations, current) = queue_timing(&queue, Some(0));
    let mut c = ctx(None);
    c.queue_durations = durations;
    c.current = current;
    assert_eq!(text_of(&field(StatusField::QueueTimeTotal { separator: None }), &c), "0:00");
    assert_eq!(text_of(&field(StatusField::QueueTimeRemaining { separator: None }), &c), "0:00");
}

#[test]
fn elapsed_and_duration_resolve_as_minutes_and_seconds() {
    let mut c = ctx(None);
    c.elapsed = 123;
    c.duration = 123;
    assert_eq!(text_of(&field(StatusField::Elapsed), &c), "2:03");
    assert_eq!(text_of(&field(StatusField::Duration), &c), "2:03");
}
