use rmpc::preview::PreviewGroup;
use rmpc::song::{MetadataTag, Song};

fn lines(g: &PreviewGroup) -> Vec<(String, String)> {
    g.lines.clone()
}

fn pair(a: &str, b: &str) -> (String, String) {
    (a.to_string(), b.to_string())
}

#[test]
fn preview_groups() {
    let song = Song {
        id: 1,
        file: "music/x/track.flac".to_string(),
        duration: Some(61),
        metadata: vec![
            ("title".to_string(), MetadataTag::Single("T".to_string())),
            ("genre".to_string(), MetadataTag::Multiple(vec!["rock".to_string(), "pop".to_string()])),
            ("artist".to_string(), MetadataTag::Multiple(vec!["A".to_string(), "B".to_string()])),
            ("date".to_string(), MetadataTag::Single("1999".to_string())),
        ],
    };
    let stickers = vec![pair("rating", "5"), pair("like", "2")];
    let groups = song.to_preview("2024-01-01", None, Some(&stickers));
    assert_eq!(groups.len(), 3);
    assert_eq!(groups[0].header, " --- [Info]");
    assert_eq!(
        lines(&groups[0]),
        vec![
            pair("File", "music/x/track.flac"),
            pair("Filename", "track"),
            pair("Title", "T"),
            pair("Artist", "A"),
            pair("Artist", "B"),
            pair("Duration", "61"),
            pair("Last Modified", "2024-01-01"),
        ]
    );
    assert_eq!(groups[1].header, " --- [Tags]");
    assert_eq!(lines(&groups[1]), vec![pair("date", "1999"), pair("genre", "rock"), pair("genre", "pop")]);
    assert_eq!(groups[2].header, " --- [Stickers]");
    assert_eq!(lines(&groups[2]), vec![pair("like", "2"), pair("rating", "5")]);
    let groups = song.to_preview("now", Some("then"), Some(&Vec::new()));
    assert_eq!(groups.len(), 2);
    assert_eq!(groups[0].lines.last().unwrap(), &pair("Added", "then"));
}
