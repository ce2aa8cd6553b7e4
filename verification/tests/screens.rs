use rmpc::screens::albums::{self, AlbumsScreen};
use rmpc::screens::artists::{self, ArtistsScreen};
use rmpc::screens::browser::{
    BrowserItem, DirOrSongInfo, DirOrSongInfoListItems, DirOrSongListItems, SongInfo, SymbolsConfig,
};
use rmpc::screens::directories::DirectoriesScreen;
use rmpc::screens::playlists::{MoveDirection, PlaylistsScreen};
use rmpc::screens::{entry_less, text_less, BrowseStep, DirOrSong, MpdRequest, Screens, SongExt, Tag};

fn filters(r: &MpdRequest) -> Vec<(Tag, String)> {
    match r {
        MpdRequest::ListTag { filters, .. } | MpdRequest::Find { filters } | MpdRequest::FindAdd { filters } => {
            filters.iter().map(|f| (f.tag, f.value.clone())).collect()
        }
        _ => Vec::new(),
    }
}

#[test]
fn screens_cycle_in_tab_order() {
    let mut s = Screens::default();
    let mut seen = Vec::new();
    for _ in 0..6 {
        seen.push(s);
        s = s.next();
    }
    assert_eq!(s, Screens::Queue);
    assert_eq!(
        seen,
        vec![Screens::Queue, Screens::Logs, Screens::Directories, Screens::Artists, Screens::Albums, Screens::Playlists]
    );
    for screen in seen {
        assert_eq!(screen.next().prev(), screen);
        assert_eq!(screen.prev().next(), screen);
    }
    assert_eq!(Screens::Queue.prev(), Screens::Playlists);
}

#[test]
fn albums_screen_requests() {
    let mut screen = AlbumsScreen::new();
    let item = DirOrSong::Dir("Blue".to_string());
    match screen.next(Some(&item)) {
        BrowseStep::Open(r) => {
            assert!(matches!(r, MpdRequest::ListTag { tag: Tag::Title, .. }));
            assert_eq!(filters(&r), vec![(Tag::Album, "Blue".to_string())]);
        }
        _ => panic!("expected to open the album"),
    }
    screen.path.push("Blue".to_string());
    let song = DirOrSong::Song("River".to_string());
    match screen.next(Some(&song)) {
        BrowseStep::Enqueue(r) => {
            assert_eq!(filters(&r), vec![(Tag::Title, "River".to_string()), (Tag::Album, "Blue".to_string())])
        }
        _ => panic!("expected to enqueue the title"),
    }
    assert!(matches!(screen.next(None), BrowseStep::Nothing));
    assert_eq!(filters(&albums::find_songs("Blue", "River")), vec![(Tag::Title, "River".to_string()), (Tag::Album, "Blue".to_string())]);
}

#[test]
fn artists_screen_requests() {
    let mut screen = ArtistsScreen::new();
    assert!(matches!(screen.add_all(), Some(MpdRequest::Add { ref path }) if path == "/"));
    let artist = DirOrSong::Dir("Nina".to_string());
    match screen.next(Some(&artist)) {
        BrowseStep::Open(r) => assert_eq!(filters(&r), vec![(Tag::Artist, "Nina".to_string())]),
        _ => panic!("expected to list albums"),
    }
    screen.path.push("Nina".to_string());
    screen.path.push("Pastel".to_string());
    let add = screen.add(&DirOrSong::Song("a.flac".to_string())).unwrap();
    assert_eq!(
        filters(&add),
        vec![(Tag::Artist, "Nina".to_string()), (Tag::Album, "Pastel".to_string()), (Tag::File, "a.flac".to_string())]
    );
    assert_eq!(filters(&artists::list_albums("Nina")), vec![(Tag::Artist, "Nina".to_string())]);
    screen.path.push("deeper".to_string());
    assert!(screen.add(&DirOrSong::Song("a".to_string())).is_none());
}

#[test]
fn directories_and_playlists_requests() {
    let mut dirs = DirectoriesScreen::new();
    dirs.path.push("music".to_string());
    dirs.path.push("jazz".to_string());
    match dirs.next(Some(&DirOrSong::Dir("miles".to_string()))) {
        BrowseStep::Open(MpdRequest::LsInfo { path }) => assert_eq!(path, "music/jazz/miles"),
        _ => panic!("expected a listing"),
    }
    assert!(matches!(dirs.add(&DirOrSong::Song("x.mp3".to_string())), MpdRequest::Add { ref path } if path == "x.mp3"));
    let pl = PlaylistsScreen::new();
    assert!(matches!(pl.add(&DirOrSong::Dir("mix".to_string())), MpdRequest::LoadPlaylist { ref name } if name == "mix"));
    let moved = pl.move_selected(&DirOrSong::Song("s".to_string()), 0, 3, "mix", MoveDirection::Up);
    assert!(matches!(moved, Some(MpdRequest::MoveInPlaylist { from: 0, to: 0, .. })));
    let moved = pl.move_selected(&DirOrSong::Song("s".to_string()), 2, 3, "mix", MoveDirection::Down);
    assert!(matches!(moved, Some(MpdRequest::MoveInPlaylist { from: 2, to: 2, .. })));
    let del = pl.delete(&DirOrSong::Song("s".to_string()), 4, Some(&DirOrSong::Dir("mix".to_string())));
    assert!(matches!(del, Some(MpdRequest::DeleteFromPlaylist { index: 4, .. })));
}

#[test]
fn entries_order_and_filter() {
    assert!(text_less("abc", "abd"));
    assert!(text_less("ab", "abc"));
    assert!(!text_less("abc", "abc"));
    assert!(entry_less(&DirOrSong::Dir("z".to_string()), &DirOrSong::Song("a".to_string())));
    assert!(!entry_less(&DirOrSong::Song("a".to_string()), &DirOrSong::Dir("z".to_string())));
    let e = DirOrSong::Song("Hello World".to_string());
    assert!(e.matches("World", false));
    assert!(!e.matches("world", false));
    assert!(e.matches("world", true));
}

fn symbols() -> SymbolsConfig {
    SymbolsConfig { song: "S".to_string(), dir: "D".to_string(), marker: "M".to_string() }
}

#[test]
fn browser_rows() {
    let items = vec![DirOrSong::Dir(String::new()), DirOrSong::Song("track".to_string())];
    let mut rows: BrowserItem = items.listitems(symbols(), vec![1]);
    let first = rows.next().unwrap();
    assert_eq!(first.marker, " ");
    assert!(!first.marked);
    assert_eq!(first.text, "D Untitled");
    let second = rows.next().unwrap();
    assert_eq!(second.marker, "M");
    assert!(second.marked);
    assert_eq!(second.text, "S track");
    assert!(rows.next().is_none());
    assert_eq!(rows.count, 3);
}

#[test]
fn browser_rows_with_songs() {
    let song = SongInfo {
        file: "f.flac".to_string(),
        title: None,
        artist: Some("Ann".to_string()),
        album: None,
        duration: Some(3),
        others: Vec::new(),
    };
    assert_eq!(SongExt::title_str(&song), "Untitled");
    assert_eq!(SongExt::artist_str(&song), "Ann");
    let entry = DirOrSongInfo::Song(song);
    assert!(entry.matches("untit", true));
    let mut rows = vec![entry, DirOrSongInfo::Dir("x".to_string())].listitems(symbols(), vec![]);
    assert_eq!(rows.next().unwrap().text, "S Untitled");
    assert_eq!(rows.next().unwrap().text, "D x");
}

#[test]
fn song_details_lines() {
    let song = SongInfo {
        file: "a.flac".to_string(),
        title: Some("Song".to_string()),
        artist: None,
        album: None,
        duration: Some(215),
        others: vec![("genre".to_string(), "jazz".to_string())],
    };
    assert_eq!(
        song.to_listitems(),
        vec![
            ("Title".to_string(), "Song".to_string()),
            ("Artist".to_string(), "Unknown".to_string()),
            ("Album".to_string(), "Unknown".to_string()),
            ("Duration".to_string(), "215".to_string()),
            ("genre".to_string(), "jazz".to_string()),
        ]
    );
    let bare = SongInfo { file: "b".to_string(), title: None, artist: None, album: None, duration: None, others: Vec::new() };
    assert_eq!(bare.to_listitems()[0].1, "Untitled");
    assert_eq!(bare.to_listitems()[3].1, "-");
}

#[test]
fn screen_previews_by_depth() {
    let mut artists = ArtistsScreen::new();
    let pick = DirOrSong::Dir("Miles".to_string());
    assert!(matches!(artists.preview(Some(&pick)), Some(MpdRequest::ListTag { tag: Tag::Album, .. })));
    artists.path.push("Miles".to_string());
    let album = DirOrSong::Dir("Kind of Blue".to_string());
    let q = artists.preview(Some(&album)).unwrap();
    assert_eq!(filters(&q), vec![(Tag::Artist, "Miles".to_string()), (Tag::Album, "Kind of Blue".to_string())]);
    artists.path.push("Kind of Blue".to_string());
    let q = artists.preview(Some(&DirOrSong::Song("so_what.flac".to_string()))).unwrap();
    assert_eq!(filters(&q)[0], (Tag::File, "so_what.flac".to_string()));
    assert!(artists.preview(None).is_none());

    let mut albums = AlbumsScreen::new();
    assert!(matches!(albums.preview(Some(&album)), Some(MpdRequest::ListTag { tag: Tag::Title, .. })));
    albums.path.push("Kind of Blue".to_string());
    let q = albums.preview(Some(&DirOrSong::Song("So What".to_string()))).unwrap();
    assert_eq!(filters(&q), vec![(Tag::Title, "So What".to_string()), (Tag::Album, "Kind of Blue".to_string())]);

    let mut dirs = DirectoriesScreen::new();
    dirs.path.push("music".to_string());
    assert!(matches!(dirs.preview(Some(&DirOrSong::Dir("jazz".to_string()))), Some(MpdRequest::LsInfo { ref path }) if path == "music/jazz"));
    let q = dirs.preview(Some(&DirOrSong::Song("a.mp3".to_string()))).unwrap();
    assert_eq!(filters(&q), vec![(Tag::File, "a.mp3".to_string())]);

    let pl = PlaylistsScreen::new();
    assert!(matches!(pl.preview(Some(&DirOrSong::Dir("mix".to_string()))), Some(MpdRequest::ListPlaylist { ref name }) if name == "mix"));
}
