use rmpc::album_groups::{AlbumDisplayMode, AlbumSortMode};
use rmpc::screens::Tag;
use rmpc::search::FilterKind;
use rmpc::song::{MetadataTag, Song};
use rmpc::panes::{BrowserEntry, EntrySongs};
use rmpc::screens::MpdRequest;
use rmpc::tag_browser::{root_tag_filter, tag_browser_albums, tag_browser_item_songs, tag_browser_key};

fn song(tags: &[(&str, MetadataTag)]) -> Song {
    Song {
        id: 0,
        file: "f".to_string(),
        duration: None,
        metadata: tags.iter().map(|(k, v)| (k.to_string(), clone_tag(v))).collect(),
    }
}

fn clone_tag(t: &MetadataTag) -> MetadataTag {
    match t {
        MetadataTag::Single(v) => MetadataTag::Single(v.clone()),
        MetadataTag::Multiple(v) => MetadataTag::Multiple(v.clone()),
    }
}

fn one(v: &str) -> MetadataTag {
    MetadataTag::Single(v.to_string())
}

#[test]
fn root_filter_without_separator_is_exact() {
    let f = root_tag_filter(Tag::Artist, None, "Nina");
    assert!(f.tag == Tag::Artist);
    assert_eq!(f.value, "Nina");
    assert!(matches!(f.kind, FilterKind::Exact));
}

#[test]
fn root_filter_with_separator_matches_one_item() {
    let f = root_tag_filter(Tag::AlbumArtist, Some(";"), "Nina");
    assert_eq!(f.value, "(^|.*;)Nina($|;.*)");
    assert!(matches!(f.kind, FilterKind::Regex));
    let empty = root_tag_filter(Tag::AlbumArtist, Some(";"), "");
    assert_eq!(empty.value, "");
    assert!(matches!(empty.kind, FilterKind::Exact));
}

#[test]
fn browser_key_joins_albums_and_takes_first_date_tag() {
    let date_tags = vec!["originaldate".to_string(), "date".to_string()];
    let s = song(&[
        ("album", MetadataTag::Multiple(vec!["a".to_string(), "b".to_string()])),
        ("date", one("2001")),
        ("originaldate", MetadataTag::Multiple(vec!["1990".to_string(), "1991".to_string()])),
    ]);
    let k = tag_browser_key(&s, ", ", &date_tags);
    assert_eq!(k.album, "a, b");
    assert_eq!(k.date, "1991");
    assert!(k.original.is_none());
    let bare = tag_browser_key(&song(&[]), ", ", &date_tags);
    assert_eq!(bare.album, "<no album>");
    assert_eq!(bare.date, "<no date>");
}

#[test]
fn browser_albums_merge_by_name() {
    let date_tags = vec!["date".to_string()];
    let data = vec![
        song(&[("album", one("x")), ("date", one("2"))]),
        song(&[("album", one("w")), ("date", one("3"))]),
        song(&[("album", one("x")), ("date", one("1"))]),
    ];
    let merged = tag_browser_albums(&data, "/", &date_tags, AlbumDisplayMode::NameOnly, AlbumSortMode::Name);
    assert_eq!(merged.len(), 2);
    assert_eq!(merged[0].name, "w");
    assert_eq!(merged[1].name, "x");
    assert_eq!(merged[1].songs, vec![2, 0]);
    let split = tag_browser_albums(&data, "/", &date_tags, AlbumDisplayMode::SplitByDate, AlbumSortMode::Date);
    let names: Vec<String> = split.into_iter().map(|a| a.name).collect();
    assert_eq!(names, vec!["(1) x".to_string(), "(2) x".to_string(), "(3) w".to_string()]);
}

#[test]
fn songs_of_tag_browser_entries() {
    let dir = |name: &str| BrowserEntry::Dir { name: name.to_string(), full_path: name.to_string(), playlist: false };
    match tag_browser_item_songs(Tag::Genre, Some(";"), 0, dir("Jazz"), Vec::new()) {
        EntrySongs::Query(MpdRequest::FindMatching { tag, value, kind }) => {
            assert_eq!(tag, Tag::Genre);
            assert_eq!(value, "(^|.*;)Jazz($|;.*)");
            assert_eq!(kind, FilterKind::Regex);
        }
        _ => panic!("a root value's songs are searched"),
    }
    let next = vec![
        dir("ignored"),
        BrowserEntry::Song(song(&[("title", one("one"))])),
        BrowserEntry::Song(song(&[("title", one("two"))])),
    ];
    match tag_browser_item_songs(Tag::Genre, None, 1, dir("Album"), next) {
        EntrySongs::Songs(v) => assert_eq!(v.len(), 2),
        _ => panic!("an album's songs are those of the next column"),
    }
    assert!(matches!(tag_browser_item_songs(Tag::Genre, None, 2, dir("x"), Vec::new()), EntrySongs::Songs(v) if v.is_empty()));
}
