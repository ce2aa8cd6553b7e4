use rmpc::status::{
    queue_time_remaining, queue_time_total, states_widget, OnOffOneshot, PlayState, Status, StatusProperty,
};

fn status() -> Status {
    Status {
        state: PlayState::Pause,
        repeat: true,
        random: false,
        consume: OnOffOneshot::Oneshot,
        single: OnOffOneshot::Off,
        volume: 75,
        bitrate: None,
        xfade: Some(3),
    }
}

#[test]
fn status_labels() {
    let state: StatusProperty<u8> = StatusProperty::State {
        playing_label: "P".to_string(),
        paused_label: "||".to_string(),
        stopped_label: "S".to_string(),
        playing_style: None,
        paused_style: Some(9),
        stopped_style: None,
    };
    assert_eq!(state.text(&status(), 1), Some(("||".to_string(), 9)));
    let repeat: StatusProperty<u8> =
        StatusProperty::Repeat { on_label: "on".to_string(), off_label: "off".to_string(), on_style: None, off_style: Some(4) };
    assert_eq!(repeat.text(&status(), 1), Some(("on".to_string(), 1)));
    let consume: StatusProperty<u8> = StatusProperty::Consume {
        on_label: "c".to_string(),
        off_label: "-".to_string(),
        oneshot_label: "1".to_string(),
        on_style: None,
        off_style: None,
        oneshot_style: None,
    };
    assert_eq!(consume.text(&status(), 2), Some(("1".to_string(), 2)));
    assert_eq!(StatusProperty::<u8>::Volume.text(&status(), 0), Some(("75".to_string(), 0)));
    assert_eq!(StatusProperty::<u8>::Bitrate.text(&status(), 0), None);
    assert_eq!(StatusProperty::<u8>::Crossfade.text(&status(), 0), Some(("3".to_string(), 0)));
}

#[test]
fn states_widget_spans() {
    let spans = states_widget(&status(), 0u8, 1u8, 2u8);
    let texts: Vec<&str> = spans.iter().map(|s| s.0.as_str()).collect();
    assert_eq!(texts, vec!["Repeat", " / ", "Random", " / ", "Oneshot(C)", " / ", "Single"]);
    let styles: Vec<u8> = spans.iter().map(|s| s.1).collect();
    assert_eq!(styles, vec![1, 2, 0, 2, 1, 2, 0]);
}

#[test]
fn queue_times() {
    let durations = vec![Some(100), None, Some(30), Some(20)];
    assert_eq!(queue_time_total(&durations), 150);
    assert_eq!(queue_time_remaining(&durations, Some(2), 10), 40);
    assert_eq!(queue_time_remaining(&durations, Some(1), 10), 50);
    assert_eq!(queue_time_remaining(&durations, Some(3), 50), 0);
    assert_eq!(queue_time_remaining(&durations, None, 10), 0);
}
