use rmpc::panes::{index_to_reselect, PlaylistMove, PlaylistsPane, ReinitPlan};
use rmpc::panes::{
    enqueue_entries, AlbumArtPane, ArtAction, ArtEvent, ArtFetch, ArtistsPane, ArtistsPaneMode,
    BrowserEntry, DirPreview, DirectoriesPane, EmptyPane, Enqueue, OpenStep, PaneTarget,
};
use rmpc::panes::{album_item_songs, EntrySongs};
use rmpc::search::FilterKind;
use rmpc::screens::{MpdRequest, Tag};
use rmpc::song::Song;

fn song(file: &str) -> BrowserEntry {
    BrowserEntry::Song(Song { id: 0, file: file.to_string(), duration: None, metadata: Vec::new() })
}

fn dir(name: &str, playlist: bool) -> BrowserEntry {
    BrowserEntry::Dir { name: name.to_string(), full_path: format!("root/{name}"), playlist }
}

#[test]
fn album_art_is_fetched_only_when_enabled_and_allowed() {
    let protocols = vec!["http://".to_string(), "https://".to_string()];
    assert!(matches!(AlbumArtPane::fetch_album_art(false, Some("a.flac"), &protocols), ArtFetch::ShowDefault));
    assert!(matches!(AlbumArtPane::fetch_album_art(true, None, &protocols), ArtFetch::ShowDefault));
    assert!(matches!(AlbumArtPane::fetch_album_art(true, Some("https://radio"), &protocols), ArtFetch::ShowDefault));
    match AlbumArtPane::fetch_album_art(true, Some("music/a.flac"), &protocols) {
        ArtFetch::Fetch(uri) => assert_eq!(uri, "music/a.flac"),
        ArtFetch::ShowDefault => panic!("expected a fetch"),
    }
}

#[test]
fn album_art_waits_for_modals() {
    let mut pane = AlbumArtPane::new();
    assert_eq!(pane.on_event(ArtEvent::SongChanged, false), ArtAction::Nothing);
    assert_eq!(pane.on_event(ArtEvent::SongChanged, true), ArtAction::BeforeShow);
    assert_eq!(pane.on_event(ArtEvent::ModalOpened, true), ArtAction::Hide);
    assert!(pane.is_modal_open);
    assert!(!pane.resize());
    assert_eq!(pane.on_query_finished(true, true), None);
    assert_eq!(pane.on_event(ArtEvent::SongChanged, true), ArtAction::Nothing);
    assert!(pane.fetch_needed);
    assert_eq!(pane.on_event(ArtEvent::ModalClosed, true), ArtAction::BeforeShow);
    assert!(!pane.fetch_needed);
    assert_eq!(pane.on_event(ArtEvent::ModalOpened, true), ArtAction::Hide);
    assert_eq!(pane.on_event(ArtEvent::ModalClosed, true), ArtAction::ShowCurrent);
    assert_eq!(pane.on_event(ArtEvent::ConfigChanged, true), ArtAction::Reconfigure { show: true });
    assert_eq!(pane.on_event(ArtEvent::Exit, true), ArtAction::Cleanup);
    assert_eq!(pane.on_query_finished(true, false), Some(false));
    let _ = EmptyPane;
}

#[test]
fn enqueue_marks_the_hovered_song_only_without_directories() {
    let items = vec![song("a"), song("b"), song("c")];
    let (reqs, hovered) = enqueue_entries(&items, Some(&items[1]));
    assert_eq!(reqs.len(), 3);
    assert_eq!(reqs[2], Enqueue::File { path: "c".to_string() });
    assert_eq!(hovered, Some(1));
    let mixed = vec![dir("d", false), dir("p", true), song("a")];
    let (reqs, hovered) = enqueue_entries(&mixed, Some(&mixed[2]));
    assert_eq!(reqs[0], Enqueue::File { path: "root/d".to_string() });
    assert_eq!(reqs[1], Enqueue::Playlist { name: "root/p".to_string() });
    assert_eq!(hovered, None);
}

#[test]
fn directories_open_or_play() {
    let mut pane = DirectoriesPane::new();
    pane.path.push("music".to_string());
    let column = vec![dir("jazz", false), dir("mix", true), song("x.flac"), song("y.flac")];
    match pane.open_or_play(&column, Some(0), false) {
        OpenStep::List { path, playlist } => {
            assert_eq!(path, "music/jazz");
            assert!(!playlist);
        }
        _ => panic!("expected a listing"),
    }
    match pane.open_or_play(&column, Some(1), false) {
        OpenStep::List { playlist, .. } => assert!(playlist),
        _ => panic!("expected a playlist listing"),
    }
    match pane.open_or_play(&column, Some(3), true) {
        OpenStep::Enqueue { items, hovered, replace } => {
            assert_eq!(items, vec![Enqueue::File { path: "x.flac".to_string() }, Enqueue::File { path: "y.flac".to_string() }]);
            assert_eq!(hovered, Some(1));
            assert!(replace);
        }
        _ => panic!("expected to enqueue"),
    }
    assert!(matches!(pane.open_or_play(&column, None, true), OpenStep::Nothing));
}

#[test]
fn artists_pane_mode() {
    let pane = ArtistsPane::new(ArtistsPaneMode::AlbumArtist);
    assert_eq!(pane.artist_tag(), Tag::AlbumArtist);
    assert_eq!(pane.target_pane(), PaneTarget::AlbumArtists);
    let pane = ArtistsPane::new(ArtistsPaneMode::Artist);
    assert_eq!(pane.artist_tag(), Tag::Artist);
    assert_eq!(pane.target_pane(), PaneTarget::Artists);
    match pane.artist_songs("Nina") {
        MpdRequest::Find { filters } => {
            assert_eq!(filters.len(), 1);
            assert_eq!(filters[0].tag, Tag::Artist);
            assert_eq!(filters[0].value, "Nina");
        }
        _ => panic!("expected a find"),
    }
}

#[test]
fn playlists_reselect_by_name_or_index() {
    let lists = vec!["a".to_string(), "b".to_string(), "c".to_string()];
    assert_eq!(index_to_reselect(&lists, "c", 0), 2);
    assert_eq!(index_to_reselect(&lists, "zz", 1), 1);
    let mut pane = PlaylistsPane::new();
    assert!(matches!(pane.reinit(&lists, Some((0, "b"))), ReinitPlan::Select(1)));
    assert!(matches!(pane.reinit(&lists, None), ReinitPlan::Nothing));
    pane.path.push("c".to_string());
    match pane.reinit(&lists, None) {
        ReinitPlan::Enter { index, playlist } => {
            assert_eq!(index, 2);
            assert_eq!(playlist, "c");
        }
        _ => panic!("expected to enter the playlist"),
    }
    match pane.reinit(&lists, Some((7, "gone"))) {
        ReinitPlan::Enter { index, playlist } => {
            assert_eq!(index, 2);
            assert_eq!(playlist, "c");
        }
        _ => panic!("expected to enter the last playlist"),
    }
    assert!(matches!(pane.reinit(&Vec::new(), Some((0, "a"))), ReinitPlan::Nothing));
}

fn names(v: &[&str]) -> Vec<String> {
    v.iter().map(|s| s.to_string()).collect()
}

#[test]
fn selects_the_same_playlist_by_name() {
    let pane = PlaylistsPane::new();
    assert!(matches!(pane.reinit(&names(&["pl2", "pl4"]), Some((1, "pl2"))), ReinitPlan::Select(0)));
}

#[test]
fn selects_the_same_index_when_playlist_not_found_after_refresh() {
    let pane = PlaylistsPane::new();
    assert!(matches!(pane.reinit(&names(&["pl1", "pl2", "pl4"]), Some((2, "pl3"))), ReinitPlan::Select(2)));
}

#[test]
fn selects_the_last_playlist_when_last_was_selected_and_removed() {
    let pane = PlaylistsPane::new();
    assert!(matches!(pane.reinit(&names(&["pl1", "pl2"]), Some((3, "pl4"))), ReinitPlan::Select(1)));
}

#[test]
fn selects_the_same_playlist_and_song() {
    let mut pane = PlaylistsPane::new();
    pane.path.push("pl3".to_string());
    match pane.reinit(&names(&["pl1", "pl3", "pl4"]), Some((2, "pl3"))) {
        ReinitPlan::Enter { index, playlist } => {
            assert_eq!(index, 1);
            assert_eq!(playlist, "pl3");
        }
        _ => panic!("expected to enter the playlist"),
    }
    let files = names(&["s1", "s3", "s4"]);
    assert_eq!(PlaylistsPane::reselect_song(&files, Some((2, "s3"))), Some(1));
    assert_eq!(PlaylistsPane::reselect_song(&files, Some((3, "s9"))), Some(2));
    assert_eq!(PlaylistsPane::reselect_song(&files, Some((0, "s9"))), Some(0));
    assert_eq!(PlaylistsPane::reselect_song(&files, None), None);
    assert_eq!(PlaylistsPane::reselect_song(&Vec::new(), Some((0, "s1"))), None);
}

#[test]
fn selects_the_same_playlist_idx_and_last_song() {
    let mut pane = PlaylistsPane::new();
    pane.path.push("pl3".to_string());
    match pane.reinit(&names(&["pl1", "pl2", "pl4"]), Some((2, "pl3"))) {
        ReinitPlan::Enter { index, playlist } => {
            assert_eq!(index, 2);
            assert_eq!(playlist, "pl4");
        }
        _ => panic!("expected to enter the playlist at the same index"),
    }
    assert_eq!(PlaylistsPane::reselect_song(&names(&["s1", "s3", "s4"]), Some((1, "s2"))), Some(1));
}

#[test]
fn directories_preview() {
    let mut pane = DirectoriesPane::new();
    pane.path.push("music".to_string());
    match pane.preview(Some(&dir("jazz", false))) {
        DirPreview::List { path, playlist } => {
            assert_eq!(path, "music/jazz");
            assert!(!playlist);
        }
        _ => panic!("expected a listing"),
    }
    match pane.preview(Some(&song("music/a.flac"))) {
        DirPreview::Song(MpdRequest::Find { filters }) => {
            assert_eq!(filters.len(), 1);
            assert!(filters[0].tag == Tag::File);
            assert_eq!(filters[0].value, "music/a.flac");
        }
        _ => panic!("expected a song lookup"),
    }
    assert!(matches!(pane.preview(None), DirPreview::Nothing));
}

#[test]
fn moving_songs_in_a_playlist() {
    assert!(matches!(PlaylistsPane::move_selected(None, &vec![], Some(0), 3, true), PlaylistMove::Nothing));
    assert!(matches!(PlaylistsPane::move_selected(Some("mix"), &vec![], None, 3, true), PlaylistMove::NoSelection));
    match PlaylistsPane::move_selected(Some("mix"), &vec![], Some(2), 3, false) {
        PlaylistMove::Moved { requests, marked, selected } => {
            assert!(matches!(&requests[0], MpdRequest::MoveInPlaylist { playlist, from: 2, to: 2 } if playlist == "mix"));
            assert!(marked.is_empty());
            assert_eq!(selected, Some(2));
        }
        _ => panic!("expected a move"),
    }
    assert!(matches!(PlaylistsPane::move_selected(Some("mix"), &vec![0, 1], None, 5, true), PlaylistMove::Nothing));
    match PlaylistsPane::move_selected(Some("mix"), &vec![1, 2, 4], None, 6, true) {
        PlaylistMove::Moved { requests, marked, selected } => {
            assert_eq!(requests.len(), 2);
            assert!(matches!(&requests[0], MpdRequest::MoveRangeInPlaylist { first: 1, last: 2, to: 0, .. }));
            assert!(matches!(&requests[1], MpdRequest::MoveRangeInPlaylist { first: 4, last: 4, to: 3, .. }));
            assert_eq!(marked, vec![0, 1, 3]);
            assert_eq!(selected, None);
        }
        _ => panic!("expected the blocks to move"),
    }
}

#[test]
fn songs_of_browsing_entries() {
    match album_item_songs(dir("Blue", false)) {
        EntrySongs::Query(MpdRequest::Find { filters }) => {
            assert_eq!(filters.len(), 1);
            assert_eq!(filters[0].tag, Tag::Album);
            assert_eq!(filters[0].value, "Blue");
        }
        _ => panic!("an album's songs are searched"),
    }
    let dirs = DirectoriesPane::new();
    match dirs.list_songs_in_item(dir("jazz", false)) {
        EntrySongs::Query(MpdRequest::FindMatching { tag, value, kind }) => {
            assert_eq!(tag, Tag::File);
            assert_eq!(value, "root/jazz");
            assert_eq!(kind, FilterKind::StartsWith);
        }
        _ => panic!("a directory's songs are searched by path"),
    }
    let playlists = PlaylistsPane::new();
    assert!(matches!(
        playlists.list_songs_in_item(dir("mix", true)),
        EntrySongs::Query(MpdRequest::ListPlaylist { name }) if name == "mix"
    ));
    match playlists.list_songs_in_item(song("a.mp3")) {
        EntrySongs::Songs(v) => assert_eq!(v[0].file, "a.mp3"),
        _ => panic!("a song is its own"),
    }
}
