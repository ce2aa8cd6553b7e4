use rmpc::album_groups::{artist_album_key, artist_keys, process_songs, AlbumDisplayMode, AlbumSortMode};
use rmpc::panes::{ArtistPreview, ArtistQuery, ArtistResult, ArtistStep, ArtistsPane, ArtistsPaneMode, BrowserEntry, EntrySongs};
use rmpc::screens::{MpdRequest, Tag};
use rmpc::song::{MetadataTag, Song};

fn song(album: &str, date: &str) -> Song {
    Song {
        id: 0,
        file: format!("{date:?} {album:?}"),
        duration: None,
        metadata: vec![
            ("album".to_string(), MetadataTag::Single(album.to_string())),
            ("date".to_string(), MetadataTag::Single(date.to_string())),
        ],
    }
}

fn names(data: &[Song], display: AlbumDisplayMode, sort: AlbumSortMode) -> Vec<String> {
    process_songs(&artist_keys(&data.to_vec_songs()), display, sort).into_iter().map(|a| a.name).collect()
}

trait ToVecSongs {
    fn to_vec_songs(&self) -> Vec<Song>;
}

impl ToVecSongs for [Song] {
    fn to_vec_songs(&self) -> Vec<Song> {
        self.iter()
            .map(|s| Song {
                id: s.id,
                file: s.file.clone(),
                duration: s.duration,
                metadata: s
                    .metadata
                    .iter()
                    .map(|(k, v)| {
                        (
                            k.clone(),
                            match v {
                                MetadataTag::Single(x) => MetadataTag::Single(x.clone()),
                                MetadataTag::Multiple(x) => MetadataTag::Multiple(x.clone()),
                            },
                        )
                    })
                    .collect(),
            })
            .collect()
    }
}

#[test]
fn albums_no_date_sort_name() {
    let songs = vec![song("album_a", "2020"), song("album_b", "2022"), song("album_a", "2021"), song("album_b", "2022")];
    let result = names(&songs, AlbumDisplayMode::NameOnly, AlbumSortMode::Name);
    assert_eq!(result.len(), 2);
    assert_eq!(result[0], "album_a");
    assert_eq!(result[1], "album_b");
}

#[test]
fn albums_split_date_sort_name() {
    let songs = vec![song("album_a", "2020"), song("album_b", "2022"), song("album_a", "2021"), song("album_b", "2022")];
    let result = names(&songs, AlbumDisplayMode::SplitByDate, AlbumSortMode::Name);
    assert_eq!(result.len(), 3);
    assert_eq!(result[0], "(2020) album_a");
    assert_eq!(result[1], "(2021) album_a");
    assert_eq!(result[2], "(2022) album_b");
}

#[test]
fn albums_split_date_sort_date() {
    let songs = vec![song("album_a", "2020"), song("album_b", "2019"), song("album_a", "2021"), song("album_b", "2019")];
    let result = names(&songs, AlbumDisplayMode::SplitByDate, AlbumSortMode::Date);
    assert_eq!(result.len(), 3);
    assert_eq!(result[0], "(2019) album_b");
    assert_eq!(result[1], "(2020) album_a");
    assert_eq!(result[2], "(2021) album_a");
}

#[test]
fn albums_no_date_sort_date() {
    let songs = vec![song("album_a", "2020"), song("album_b", "2019"), song("album_a", "2021"), song("album_b", "2025")];
    let result = names(&songs, AlbumDisplayMode::NameOnly, AlbumSortMode::Date);
    assert_eq!(result.len(), 2);
    assert_eq!(result[0], "album_b");
    assert_eq!(result[1], "album_a");
}

#[test]
fn every_song_lands_in_one_album() {
    let songs = vec![song("a", "1"), song("b", "2"), song("a", "1"), song("a", "3")];
    let albums = process_songs(&artist_keys(&songs.to_vec_songs()), AlbumDisplayMode::NameOnly, AlbumSortMode::Name);
    assert_eq!(albums.len(), 2);
    assert_eq!(albums[0].songs, vec![0, 2, 3]);
    assert_eq!(albums[0].original_name, "a");
    assert_eq!(albums[1].songs, vec![1]);
    let missing = Song { id: 1, file: "x".to_string(), duration: None, metadata: Vec::new() };
    let albums = process_songs(&vec![artist_album_key(&missing)], AlbumDisplayMode::SplitByDate, AlbumSortMode::Name);
    assert_eq!(albums[0].name, "(<no date>) <no album>");
    assert_eq!(albums[0].original_name, "");
}

#[test]
fn artists_pane_uses_its_cache() {
    let mut pane = ArtistsPane::new(ArtistsPaneMode::Artist);
    let artist = BrowserEntry::Dir { name: "Nina".to_string(), full_path: "Nina".to_string(), playlist: false };
    assert!(matches!(pane.open_or_play(Some(&artist), false), ArtistStep::Fetch(_)));
    let songs = vec![song("a", "1"), song("b", "2")].as_slice().to_vec_songs();
    let at = pane.process_songs("Nina".to_string(), songs, AlbumDisplayMode::NameOnly, AlbumSortMode::Name);
    assert_eq!(at, 0);
    match pane.open_or_play(Some(&artist), false) {
        ArtistStep::ShowAlbums(names) => assert_eq!(names, vec!["a".to_string(), "b".to_string()]),
        _ => panic!("expected the cached albums"),
    }
    pane.path.push("Nina".to_string());
    let album = BrowserEntry::Dir { name: "b".to_string(), full_path: "b".to_string(), playlist: false };
    match pane.open_or_play(Some(&album), false) {
        ArtistStep::ShowSongs(songs) => assert_eq!(songs, vec![1]),
        _ => panic!("expected the album's songs"),
    }
    pane.path.push("b".to_string());
    let track = BrowserEntry::Song(Song { id: 3, file: "b.flac".to_string(), duration: None, metadata: Vec::new() });
    match pane.open_or_play(Some(&track), true) {
        ArtistStep::Add { file, play } => {
            assert_eq!(file, "b.flac");
            assert!(play);
        }
        _ => panic!("expected to add the song"),
    }
    let again = pane.process_songs("Nina".to_string(), Vec::new(), AlbumDisplayMode::NameOnly, AlbumSortMode::Name);
    assert_eq!(again, 0);
    assert_eq!(pane.cache.len(), 1);
}

#[test]
fn artists_pane_previews_by_depth() {
    let mut pane = ArtistsPane::new(ArtistsPaneMode::AlbumArtist);
    let songs = vec![song("a", "1"), song("b", "2")].as_slice().to_vec_songs();
    let b_file = songs[1].file.clone();
    pane.process_songs("Nina".to_string(), songs, AlbumDisplayMode::NameOnly, AlbumSortMode::Name);
    match pane.preview(Some("Nina")) {
        ArtistPreview::AlbumNames(names) => assert_eq!(names, vec!["a".to_string(), "b".to_string()]),
        _ => panic!("expected the album names"),
    }
    assert!(matches!(pane.preview(Some("Other")), ArtistPreview::Fetch(_)));
    assert!(matches!(pane.preview(None), ArtistPreview::Nothing));
    pane.path.push("Nina".to_string());
    match pane.preview(Some("b")) {
        ArtistPreview::AlbumSongs { artist, album, songs } => {
            assert_eq!((artist, album), (0, 1));
            assert_eq!(songs, vec![1]);
        }
        _ => panic!("expected the album's songs"),
    }
    assert!(matches!(pane.preview(Some("zzz")), ArtistPreview::Nothing));
    pane.path.push("b".to_string());
    assert!(matches!(pane.preview(Some(b_file.as_str())), ArtistPreview::SongDetails { artist: 0, album: 1, song: Some(1) }));
    assert!(matches!(pane.preview(Some("missing")), ArtistPreview::SongDetails { artist: 0, album: 1, song: None }));
}

#[test]
fn arriving_artist_songs_are_cached_or_dropped() {
    let mut pane = ArtistsPane::new(ArtistsPaneMode::Artist);
    let songs = || vec![song("a", "1"), song("b", "2")].as_slice().to_vec_songs();
    match pane.on_songs(ArtistQuery::Preview, "Nina".to_string(), songs(), Some("Nina"), AlbumDisplayMode::NameOnly, AlbumSortMode::Name) {
        ArtistResult::Preview { at, names } => {
            assert_eq!(at, 0);
            assert_eq!(names, vec!["a".to_string(), "b".to_string()]);
        }
        _ => panic!("expected a preview"),
    }
    assert!(matches!(
        pane.on_songs(ArtistQuery::Preview, "Ella".to_string(), songs(), Some("Nina"), AlbumDisplayMode::NameOnly, AlbumSortMode::Name),
        ArtistResult::CachedOnly(1)
    ));
    assert!(matches!(
        pane.on_songs(ArtistQuery::Open, "Miles".to_string(), songs(), None, AlbumDisplayMode::NameOnly, AlbumSortMode::Name),
        ArtistResult::Dropped
    ));
    assert_eq!(pane.cache.len(), 2);
    pane.path.push("Miles".to_string());
    assert!(matches!(
        pane.on_songs(ArtistQuery::Open, "Miles".to_string(), songs(), None, AlbumDisplayMode::SplitByDate, AlbumSortMode::Name),
        ArtistResult::Albums { at: 2, .. }
    ));
}

fn filter_pairs(r: &EntrySongs) -> Vec<(Tag, String)> {
    match r {
        EntrySongs::Query(MpdRequest::Find { filters }) => filters.iter().map(|f| (f.tag, f.value.clone())).collect(),
        _ => panic!("expected a search"),
    }
}

#[test]
fn songs_of_an_artist_and_of_an_album() {
    let mut pane = ArtistsPane::new(ArtistsPaneMode::AlbumArtist);
    let dir = |name: &str| BrowserEntry::Dir { name: name.to_string(), full_path: name.to_string(), playlist: false };
    assert_eq!(filter_pairs(&pane.list_songs_in_item(dir("Nina"))), vec![(Tag::AlbumArtist, "Nina".to_string())]);

    let at = pane.process_songs(
        "Nina".to_string(),
        vec![song("Pastel", "1964")].as_slice().to_vec_songs(),
        AlbumDisplayMode::SplitByDate,
        AlbumSortMode::Name,
    );
    let shown = pane.cache[at].1.albums[0].name.clone();
    pane.path.push("Nina".to_string());
    assert_eq!(
        filter_pairs(&pane.list_songs_in_item(dir(&shown))),
        vec![(Tag::Album, "Pastel".to_string()), (Tag::AlbumArtist, "Nina".to_string())]
    );
    // An album the cache does not know is searched under the empty album tag.
    assert_eq!(
        filter_pairs(&pane.list_songs_in_item(dir("Unknown"))),
        vec![(Tag::Album, String::new()), (Tag::AlbumArtist, "Nina".to_string())]
    );
    match pane.list_songs_in_item(BrowserEntry::Song(song("Pastel", "1964"))) {
        EntrySongs::Songs(v) => assert_eq!(v.len(), 1),
        _ => panic!("a song is its own"),
    }
    pane.path.push(shown);
    assert!(matches!(pane.list_songs_in_item(dir("x")), EntrySongs::Songs(v) if v.is_empty()));
}
