use std::cmp::Ordering;

use rmpc::screens::browser::{DirOrSongInfo, SongInfo};
use rmpc::screens::entry_order::text_ordering;
use rmpc::screens::DirOrSong;

fn song(title: Option<&str>) -> DirOrSongInfo {
    DirOrSongInfo::Song(SongInfo {
        file: "a.mp3".to_string(),
        title: title.map(|t| t.to_string()),
        artist: None,
        album: None,
        duration: None,
        others: Vec::new(),
    })
}

#[test]
fn texts_order_by_characters() {
    assert_eq!(text_ordering("abc", "abd"), Ordering::Less);
    assert_eq!(text_ordering("abc", "abc"), Ordering::Equal);
    assert_eq!(text_ordering("ab", "abc"), Ordering::Less);
    assert_eq!(text_ordering("b", "abc"), Ordering::Greater);
    assert_eq!(text_ordering("Zed", "alpha"), Ordering::Less);
    assert_eq!(text_ordering("é", "z"), "é".cmp("z"));
}

#[test]
fn directories_come_before_songs() {
    let d = DirOrSong::Dir("zz".to_string());
    let s = DirOrSong::Song("aa".to_string());
    assert_eq!(d.cmp(&s), Ordering::Less);
    assert_eq!(s.cmp(&d), Ordering::Greater);
    assert_eq!(DirOrSong::Song("a".to_string()).cmp(&s), Ordering::Less);
    assert_eq!(DirOrSong::Dir("zz".to_string()).cmp(&d), Ordering::Equal);
}

#[test]
fn songs_order_by_title() {
    let d = DirOrSongInfo::Dir("music".to_string());
    assert_eq!(d.cmp(&song(Some("a"))), Ordering::Less);
    assert_eq!(song(None).cmp(&song(Some("a"))), Ordering::Less);
    assert_eq!(song(Some("b")).cmp(&song(Some("a"))), Ordering::Greater);
    assert_eq!(song(None).cmp(&song(None)), Ordering::Equal);
}
