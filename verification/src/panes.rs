//! The decisions of the album art, directories, artists and empty panes:
//! what to fetch, what to show, and what to enqueue.
use vstd::prelude::*;

use crate::album_groups::{albums_of, artist_keys, keys_of_songs, process_songs, AlbumDisplayMode, AlbumKey, AlbumSortMode, CachedAlbum};
use crate::screens::directories::path_of;
use crate::screens::{filters1, filters2, one_filter, two_filters, MpdRequest, RequestView, Tag};
use crate::search::FilterKind;
use crate::song::Song;
use crate::text::{join_strings, str_equals, views};

verus! {

/// A pane that the pane container can hold among its other panes.
pub trait BoxedPane {
}

/// A pane that draws nothing and handles nothing.
pub struct EmptyPane;

impl BoxedPane for EmptyPane {
}

/// The album art pane: whether a modal hides it, and whether the art must
/// be fetched once the modal closes.
pub struct AlbumArtPane {
    pub is_modal_open: bool,
    pub fetch_needed: bool,
}

impl BoxedPane for AlbumArtPane {
}

/// `uri` starts with one of `protocols`.
pub open spec fn has_disabled_protocol(uri: Seq<char>, protocols: Seq<String>) -> bool {
    exists|i: int| 0 <= i < protocols.len() && uri.len() >= protocols[i]@.len() && #[trigger] uri.subrange(0, protocols[i]@.len() as int) == protocols[i]@
}

/// Whether `s` starts with `prefix`.
pub fn starts_with(s: &str, prefix: &str) -> (r: bool)
    ensures
        r == (s@.len() >= prefix@.len() && s@.subrange(0, prefix@.len() as int) == prefix@),
{
    let a = crate::text::to_chars(s);
    let b = crate::text::to_chars(prefix);
    if a.len() < b.len() {
        return false;
    }
    for i in 0..b.len()
        invariant
            a@ == s@,
            b@ == prefix@,
            a@.len() >= b@.len(),
            forall|j: int| 0 <= j < i ==> a@[j] == b@[j],
    {
        if a[i] != b[i] {
            return false;
        }
    }
    assert(s@.subrange(0, prefix@.len() as int) =~= prefix@);
    true
}

/// What the album art pane does when it is shown, or when the song
/// changes.
pub enum ArtFetch {
    /// Show the placeholder image.
    ShowDefault,
    /// Ask the daemon for the art of this file.
    Fetch(String),
}

/// What an event asks of the album art pane.
#[derive(Clone, Copy, PartialEq, Eq, Structural, Debug)]
pub enum ArtEvent {
    SongChanged,
    Reconnected,
    Displayed,
    ModalOpened,
    ModalClosed,
    ConfigChanged,
    Exit,
    Other,
}

/// What the album art pane does in answer to an event.
#[derive(Clone, Copy, PartialEq, Eq, Structural, Debug)]
pub enum ArtAction {
    Nothing,
    /// Decide between fetching and the placeholder, as when shown.
    BeforeShow,
    /// Show the image already fetched.
    ShowCurrent,
    Hide,
    /// Take the new configuration; show the current image when visible.
    Reconfigure { show: bool },
    /// Release the image.
    Cleanup,
}

impl AlbumArtPane {
    /// A pane with no modal open and nothing pending.
    pub fn new() -> (r: AlbumArtPane)
        ensures
            !r.is_modal_open,
            !r.fetch_needed,
    {
        AlbumArtPane { is_modal_open: false, fetch_needed: false }
    }

    /// Decides what to show: nothing to fetch when album art is turned off,
    /// when no song is playing, or when the song's address starts with a
    /// disabled protocol; otherwise fetch the art of the playing song.
    pub fn fetch_album_art(
        art_enabled: bool,
        current_song_file: Option<&str>,
        disabled_protocols: &Vec<String>,
    ) -> (r: ArtFetch)
        ensures
            match r {
                ArtFetch::Fetch(uri) => art_enabled && (current_song_file matches Some(f) && uri@
                    == f@ && !has_disabled_protocol(f@, disabled_protocols@)),
                ArtFetch::ShowDefault => !art_enabled || current_song_file is None || (
                current_song_file matches Some(f) && has_disabled_protocol(
                    f@,
                    disabled_protocols@,
                )),
            },
    {
        if !art_enabled {
            return ArtFetch::ShowDefault;
        }
        let uri = match current_song_file {
            Some(f) => f,
            None => {
                return ArtFetch::ShowDefault;
            },
        };
        for i in 0..disabled_protocols.len()
            invariant
                current_song_file == Some(uri),
                art_enabled,
                forall|j: int|
                    0 <= j < i ==> !(uri@.len() >= disabled_protocols@[j]@.len() && #[trigger] uri@.subrange(
                        0,
                        disabled_protocols@[j]@.len() as int,
                    ) == disabled_protocols@[j]@),
        {
            if starts_with(uri, disabled_protocols[i].as_str()) {
                assert(uri@.subrange(0, disabled_protocols@[i as int]@.len() as int)
                    == disabled_protocols@[i as int]@);
                assert(has_disabled_protocol(uri@, disabled_protocols@));
                assert(current_song_file == Some(uri));
                return ArtFetch::ShowDefault;
            }
        }
        ArtFetch::Fetch(uri.to_string())
    }

    /// Handles an event; `is_visible` tells whether the pane is on screen.
    /// While a modal is open a song change only marks the art as stale; it
    /// is fetched when the modal closes.
    pub fn on_event(&mut self, event: ArtEvent, is_visible: bool) -> (r: ArtAction)
        ensures
            match event {
                ArtEvent::SongChanged | ArtEvent::Reconnected => if !is_visible {
                    r == ArtAction::Nothing && *final(self) == *old(self)
                } else if old(self).is_modal_open {
                    r == ArtAction::Nothing && final(self).fetch_needed && final(self).is_modal_open
                } else {
                    r == ArtAction::BeforeShow && *final(self) == *old(self)
                },
                ArtEvent::Displayed => *final(self) == *old(self) && r == if is_visible
                    && !old(self).is_modal_open {
                    ArtAction::ShowCurrent
                } else {
                    ArtAction::Nothing
                },
                ArtEvent::ModalOpened => if is_visible {
                    r == ArtAction::Hide && final(self).is_modal_open && final(self).fetch_needed
                        == old(self).fetch_needed
                } else {
                    r == ArtAction::Nothing && *final(self) == *old(self)
                },
                ArtEvent::ModalClosed => if is_visible {
                    !final(self).is_modal_open && !final(self).fetch_needed && r == if old(
                        self,
                    ).fetch_needed {
                        ArtAction::BeforeShow
                    } else {
                        ArtAction::ShowCurrent
                    }
                } else {
                    r == ArtAction::Nothing && *final(self) == *old(self)
                },
                ArtEvent::ConfigChanged => *final(self) == *old(self) && r == ArtAction::Reconfigure {
                    show: is_visible && !old(self).is_modal_open,
                },
                ArtEvent::Exit => *final(self) == *old(self) && r == ArtAction::Cleanup,
                ArtEvent::Other => *final(self) == *old(self) && r == ArtAction::Nothing,
            },
    {
        match event {
            ArtEvent::SongChanged | ArtEvent::Reconnected => {
                if !is_visible {
                    return ArtAction::Nothing;
                }
                if self.is_modal_open {
                    self.fetch_needed = true;
                    return ArtAction::Nothing;
                }
                ArtAction::BeforeShow
            },
            ArtEvent::Displayed => {
                if is_visible && !self.is_modal_open {
                    ArtAction::ShowCurrent
                } else {
                    ArtAction::Nothing
                }
            },
            ArtEvent::ModalOpened => {
                if !is_visible {
                    return ArtAction::Nothing;
                }
                self.is_modal_open = true;
                ArtAction::Hide
            },
            ArtEvent::ModalClosed => {
                if !is_visible {
                    return ArtAction::Nothing;
                }
                self.is_modal_open = false;
                if self.fetch_needed {
                    self.fetch_needed = false;
                    return ArtAction::BeforeShow;
                }
                ArtAction::ShowCurrent
            },
            ArtEvent::ConfigChanged => ArtAction::Reconfigure { show: is_visible && !self.is_modal_open },
            ArtEvent::Exit => ArtAction::Cleanup,
            ArtEvent::Other => ArtAction::Nothing,
        }
    }

    /// Whether fetched art is shown: only while visible and not hidden by a
    /// modal; `Some(true)` shows the image, `Some(false)` the placeholder.
    pub fn on_query_finished(&self, is_visible: bool, found: bool) -> (r: Option<bool>)
        ensures
            r == if !is_visible || self.is_modal_open {
                None
            } else {
                Some(found)
            },
    {
        if !is_visible || self.is_modal_open {
            None
        } else {
            Some(found)
        }
    }

    /// Whether a resize shows the current image again (not while a modal is
    /// open).
    pub fn resize(&self) -> (r: bool)
        ensures
            r == !self.is_modal_open,
    {
        !self.is_modal_open
    }
}

/// An entry of the directories and artists browsers.
pub enum BrowserEntry {
    /// A directory or a stored playlist, with its name and full path.
    Dir { name: String, full_path: String, playlist: bool },
    Song(Song),
}

/// What is enqueued for an entry.
#[derive(PartialEq, Eq, Debug)]
pub enum Enqueue {
    File { path: String },
    Playlist { name: String },
}

/// An enqueue request as plain values: whether it is a playlist, and its
/// path or name.
pub open spec fn enqueue_view(e: Enqueue) -> (bool, Seq<char>) {
    match e {
        Enqueue::File { path } => (false, path@),
        Enqueue::Playlist { name } => (true, name@),
    }
}

/// What enqueueing an entry asks for: a playlist by its full path, a
/// directory by its full path, a song by its file.
pub open spec fn entry_enqueue(e: BrowserEntry) -> (bool, Seq<char>) {
    match e {
        BrowserEntry::Dir { full_path, playlist, .. } => (playlist, full_path@),
        BrowserEntry::Song(s) => (false, s.file@),
    }
}

/// The name of a directory entry, or the file of a song entry.
pub open spec fn entry_name(e: BrowserEntry) -> Seq<char> {
    match e {
        BrowserEntry::Dir { name, .. } => name@,
        BrowserEntry::Song(s) => s.file@,
    }
}

/// The first index of `files` that is a file request for `name`.
pub open spec fn first_file_index(reqs: Seq<(bool, Seq<char>)>, name: Seq<char>) -> Option<int> {
    if exists|i: int| 0 <= i < reqs.len() && reqs[i] == (false, name) {
        Some(choose|i: int| 0 <= i < reqs.len() && reqs[i] == (false, name) && forall|j: int| 0 <= j < i ==> reqs[j] != (false, name))
    } else {
        None
    }
}

fn entry_to_enqueue(e: &BrowserEntry) -> (r: Enqueue)
    ensures
        enqueue_view(r) == entry_enqueue(*e),
{
    match e {
        BrowserEntry::Dir { full_path, playlist, .. } => if *playlist {
            Enqueue::Playlist { name: full_path.clone() }
        } else {
            Enqueue::File { path: full_path.clone() }
        },
        BrowserEntry::Song(s) => Enqueue::File { path: s.file.clone() },
    }
}

fn entry_name_exec(e: &BrowserEntry) -> (r: &str)
    ensures
        r@ == entry_name(*e),
{
    match e {
        BrowserEntry::Dir { name, .. } => name.as_str(),
        BrowserEntry::Song(s) => s.file.as_str(),
    }
}

/// The files of the songs among `column`, in order.
pub open spec fn song_files(column: Seq<BrowserEntry>) -> Seq<Seq<char>>
    decreases column.len(),
{
    if column.len() == 0 {
        Seq::empty()
    } else {
        match column.last() {
            BrowserEntry::Song(s) => song_files(column.drop_last()).push(s.file@),
            _ => song_files(column.drop_last()),
        }
    }
}

/// What enqueueing `items` asks for, in order, and where the entry under
/// the cursor lands among them; that place is only given when no directory
/// or playlist is among the items, so that playback can start from it.
pub fn enqueue_entries(items: &Vec<BrowserEntry>, selected: Option<&BrowserEntry>) -> (r: (
    Vec<Enqueue>,
    Option<usize>,
))
    ensures
        r.0@.len() == items@.len(),
        forall|k: int| 0 <= k < items@.len() ==> enqueue_view(#[trigger] r.0@[k]) == entry_enqueue(items@[k]),
        (exists|k: int| 0 <= k < items@.len() && #[trigger] items@[k] is Dir) ==> r.1 is None,
        (forall|k: int| 0 <= k < items@.len() ==> !(#[trigger] items@[k] is Dir)) ==> match selected {
            None => r.1 is None,
            Some(sel) => match r.1 {
                Some(i) => i < items@.len() && entry_enqueue(items@[i as int]) == (false, entry_name(*sel))
                    && forall|j: int| 0 <= j < i ==> entry_enqueue(#[trigger] items@[j]) != (false, entry_name(*sel)),
                None => forall|j: int| 0 <= j < items@.len() ==> entry_enqueue(#[trigger] items@[j]) != (false, entry_name(*sel)),
            },
        },
{
    let mut out: Vec<Enqueue> = Vec::new();
    let mut dir_found = false;
    let n = items.len();
    for k in 0..n
        invariant
            n == items@.len(),
            out@.len() == k,
            forall|q: int| 0 <= q < k ==> enqueue_view(#[trigger] out@[q]) == entry_enqueue(items@[q]),
            dir_found <==> exists|q: int| 0 <= q < k && #[trigger] items@[q] is Dir,
    {
        let e = &items[k];
        if let BrowserEntry::Dir { .. } = e {
            dir_found = true;
        }
        out.push(entry_to_enqueue(e));
    }
    if dir_found {
        return (out, None);
    }
    let sel = match selected {
        Some(s) => s,
        None => {
            return (out, None);
        },
    };
    let name = entry_name_exec(sel);
    for k in 0..n
        invariant
            n == items@.len(),
            out@.len() == n,
            forall|q: int| 0 <= q < n ==> enqueue_view(#[trigger] out@[q]) == entry_enqueue(items@[q]),
            forall|q: int| 0 <= q < k ==> entry_enqueue(#[trigger] items@[q]) != (false, entry_name(*sel)),
            name@ == entry_name(*sel),
            forall|q: int| 0 <= q < n ==> !(#[trigger] items@[q] is Dir),
            selected == Some(sel),
    {
        let hit = match &out[k] {
            Enqueue::File { path } => str_equals(path.as_str(), name),
            Enqueue::Playlist { .. } => false,
        };
        assert(enqueue_view(out@[k as int]) == entry_enqueue(items@[k as int]));
        if hit {
            assert(entry_enqueue(items@[k as int]) == (false, entry_name(*sel)));
            return (out, Some(k));
        }
    }
    (out, None)
}

/// The directories pane: the directories opened, outermost first.
pub struct DirectoriesPane {
    pub path: Vec<String>,
    pub filter_input_mode: bool,
    pub initialized: bool,
}

impl BoxedPane for DirectoriesPane {
}

/// What opening the entry under the cursor of a browser does.
pub enum OpenStep {
    /// Nothing is selected, or there is nothing to enqueue.
    Nothing,
    /// List what lies at this path: a stored playlist's songs, or a
    /// directory's contents.
    List { path: String, playlist: bool },
    /// Enqueue these items; `replace` replaces the queue and starts playback
    /// at `hovered`, otherwise they go to the end of the queue.
    Enqueue { items: Vec<Enqueue>, hovered: Option<usize>, replace: bool },
}

impl DirectoriesPane {
    /// A pane at the root, not yet loaded.
    pub fn new() -> (r: DirectoriesPane)
        ensures
            r.path@.len() == 0,
            !r.filter_input_mode,
            !r.initialized,
    {
        DirectoriesPane { path: Vec::new(), filter_input_mode: false, initialized: false }
    }

    /// The path of `name` below the directories opened.
    pub fn next_path(&self, name: &str) -> (r: String)
        ensures
            r@ == path_of(self.path@, name@),
    {
        let mut parts: Vec<String> = Vec::new();
        for i in 0..self.path.len()
            invariant
                parts@.len() == i,
                i <= self.path@.len(),
                forall|j: int| 0 <= j < i ==> #[trigger] parts@[j]@ == self.path@[j]@,
        {
            parts.push(self.path[i].clone());
        }
        parts.push(name.to_string());
        assert(views(parts@) =~= views(self.path@).push(name@));
        join_strings(&parts, "/")
    }

    /// Opens the entry under the cursor (`selected`, an index into
    /// `column`): a directory or playlist is listed, a song enqueues all
    /// the songs of the column, replacing the queue and playing from the
    /// song under the cursor when `autoplay` is set.
    pub fn open_or_play(&self, column: &Vec<BrowserEntry>, selected: Option<usize>, autoplay: bool) -> (r: OpenStep)
        requires
            selected matches Some(i) ==> i < column@.len(),
        ensures
            match selected {
                None => r is Nothing,
                Some(i) => match column@[i as int] {
                    BrowserEntry::Dir { name, playlist, .. } => (r matches OpenStep::List { path, playlist: p }
                        && path@ == path_of(self.path@, name@) && p == playlist),
                    BrowserEntry::Song(s) => match r {
                        OpenStep::Enqueue { items, hovered, replace } => replace == autoplay
                            && items@.len() == song_files(column@).len()
                            && (forall|k: int| 0 <= k < items@.len() ==> enqueue_view(#[trigger] items@[k]) == (false, song_files(column@)[k]))
                            && (hovered matches Some(h) && h < items@.len() && song_files(column@)[h as int] == s.file@
                                && forall|j: int| 0 <= j < h ==> #[trigger] song_files(column@)[j] != s.file@),
                        _ => false,
                    },
                },
            },
    {
        let i = match selected {
            Some(i) => i,
            None => {
                return OpenStep::Nothing;
            },
        };
        match &column[i] {
            BrowserEntry::Dir { name, playlist, .. } => {
                OpenStep::List { path: self.next_path(name.as_str()), playlist: *playlist }
            },
            BrowserEntry::Song(_) => {
                let ghost file = entry_name(column@[i as int]);
                let mut songs: Vec<BrowserEntry> = Vec::new();
                let mut k: usize = 0;
                while k < column.len()
                    invariant
                        k <= column@.len(),
                        i < column@.len(),
                        column@[i as int] is Song,
                        file == entry_name(column@[i as int]),
                        songs@.len() == song_files(column@.take(k as int)).len(),
                        forall|q: int| 0 <= q < songs@.len() ==> #[trigger] songs@[q] is Song
                            && entry_enqueue(songs@[q]) == (false, song_files(column@.take(k as int))[q]),
                        k > i ==> exists|q: int| 0 <= q < songs@.len() && #[trigger] song_files(column@.take(k as int))[q] == file,
                    decreases column@.len() - k,
                {
                    let ghost before = column@.take(k as int);
                    assert(column@.take(k + 1).drop_last() =~= before);
                    assert(column@.take(k + 1).last() == column@[k as int]);
                    match &column[k] {
                        BrowserEntry::Song(s) => {
                            songs.push(BrowserEntry::Song(clone_song(s)));
                            proof {
                                let sf = song_files(column@.take(k + 1));
                                assert(sf == song_files(before).push(s.file@));
                                if k == i {
                                    assert(entry_name(column@[k as int]) == s.file@);
                                    assert(sf[songs@.len() - 1] == file);
                                    assert(exists|q: int| 0 <= q < songs@.len() && #[trigger] song_files(column@.take(k + 1))[q] == file);
                                } else if k > i {
                                    let q = choose|q: int| 0 <= q < songs@.len() - 1 && #[trigger] song_files(before)[q] == file;
                                    assert(sf[q] == file);
                                    assert(exists|q: int| 0 <= q < songs@.len() && #[trigger] song_files(column@.take(k + 1))[q] == file);
                                }
                            }
                        },
                        _ => {
                            proof {
                                if k > i {
                                    let q = choose|q: int| 0 <= q < songs@.len() && #[trigger] song_files(before)[q] == file;
                                    assert(song_files(column@.take(k + 1)) == song_files(before));
                                    assert(song_files(column@.take(k + 1))[q] == file);
                                    assert(exists|q: int| 0 <= q < songs@.len() && #[trigger] song_files(column@.take(k + 1))[q] == file);
                                }
                            }
                        },
                    }
                    k = k + 1;
                }
                assert(column@.take(column@.len() as int) =~= column@);
                let (items, hovered) = enqueue_entries(&songs, Some(&column[i]));
                assert(forall|k: int| 0 <= k < songs@.len() ==> !(#[trigger] songs@[k] is Dir));
                proof {
                    let sf = song_files(column@);
                    let q = choose|q: int| 0 <= q < songs@.len() && #[trigger] song_files(column@)[q] == file;
                    assert(entry_enqueue(songs@[q]) == (false, file));
                    assert(entry_name(column@[i as int]) == file);
                    match hovered {
                        Some(h) => {
                            assert(entry_enqueue(songs@[h as int]) == (false, sf[h as int]));
                            assert forall|j: int| 0 <= j < h implies #[trigger] sf[j] != file by {
                                assert(entry_enqueue(songs@[j]) == (false, sf[j]));
                            }
                        },
                        None => {
                            assert(entry_enqueue(songs@[q]) != (false, file));
                        },
                    }
                    assert forall|k: int| 0 <= k < items@.len() implies enqueue_view(#[trigger] items@[k]) == (false, sf[k]) by {
                        assert(entry_enqueue(songs@[k]) == (false, sf[k]));
                    }
                }
                OpenStep::Enqueue { items, hovered, replace: autoplay }
            },
        }
    }
}

/// What the preview column of the directories pane shows.
pub enum DirPreview {
    Nothing,
    /// The contents at this path: a stored playlist's songs, or a
    /// directory's entries.
    List { path: String, playlist: bool },
    /// The details of the song that this request finds.
    Song(MpdRequest),
}

impl DirectoriesPane {
    /// What to preview for the entry under the cursor: the contents of a
    /// directory or playlist, or the details of a song, found by its file.
    pub fn preview(&self, selected: Option<&BrowserEntry>) -> (r: DirPreview)
        ensures
            match selected {
                None => r is Nothing,
                Some(BrowserEntry::Dir { name, playlist, .. }) => r matches DirPreview::List { path, playlist: p }
                    && path@ == path_of(self.path@, name@) && p == *playlist,
                Some(BrowserEntry::Song(s)) => r matches DirPreview::Song(q) && q@ == RequestView::Find(one_filter(Tag::File, s.file@)),
            },
    {
        match selected {
            None => DirPreview::Nothing,
            Some(BrowserEntry::Dir { name, playlist, .. }) => DirPreview::List { path: self.next_path(name.as_str()), playlist: *playlist },
            Some(BrowserEntry::Song(s)) => DirPreview::Song(MpdRequest::Find { filters: filters1(Tag::File, s.file.as_str()) }),
        }
    }
}

/// A copy of a song's id, file and length; its tags are not needed to
/// enqueue it.
fn clone_song(s: &Song) -> (r: Song)
    ensures
        r.id == s.id,
        r.file@ == s.file@,
        r.duration == s.duration,
{
    Song { id: s.id, file: s.file.clone(), duration: s.duration, metadata: Vec::new() }
}

/// Which tag the artists pane browses.
#[derive(Clone, Copy, PartialEq, Eq, Structural, Debug)]
pub enum ArtistsPaneMode {
    AlbumArtist,
    Artist,
}

/// Which pane a query result belongs to.
#[derive(Clone, Copy, PartialEq, Eq, Structural, Debug)]
pub enum PaneTarget {
    AlbumArtists,
    Artists,
}

/// The albums of an artist, once its songs were fetched.
pub struct CachedArtist {
    pub songs: Vec<Song>,
    pub albums: Vec<CachedAlbum>,
}

/// The artists pane: its mode, the artist and album opened, if any, and
/// the albums of the artists fetched so far.
pub struct ArtistsPane {
    pub mode: ArtistsPaneMode,
    pub path: Vec<String>,
    pub filter_input_mode: bool,
    pub initialized: bool,
    pub cache: Vec<(String, CachedArtist)>,
}

/// What opening the entry under the cursor of the artists pane does.
pub enum ArtistStep {
    Nothing,
    /// Show the names of the artist's albums as the next column.
    ShowAlbums(Vec<String>),
    /// Show these songs (positions in the artist's songs) as the next
    /// column.
    ShowSongs(Vec<usize>),
    /// Fetch the artist's songs with this request, showing an empty column
    /// until they come.
    Fetch(MpdRequest),
    /// Enqueue this file, and play it when `play` is set.
    Add { file: String, play: bool },
}

/// No artist has two entries in the cache, as with the map the cache
/// stands for.
pub open spec fn distinct_artists(cache: Seq<(String, CachedArtist)>) -> bool {
    forall|i: int, j: int| 0 <= i < j < cache.len() ==> (#[trigger] cache[i]).0@ != (#[trigger] cache[j]).0@
}

/// Entry `i` is the first cache entry of `artist`.
pub open spec fn first_artist_at(cache: Seq<(String, CachedArtist)>, artist: Seq<char>, i: int) -> bool {
    &&& 0 <= i < cache.len()
    &&& cache[i].0@ == artist
    &&& forall|j: int| 0 <= j < i ==> (#[trigger] cache[j]).0@ != artist
}

/// No cache entry is for `artist`.
pub open spec fn not_cached(cache: Seq<(String, CachedArtist)>, artist: Seq<char>) -> bool {
    forall|j: int| 0 <= j < cache.len() ==> (#[trigger] cache[j]).0@ != artist
}

fn find_artist(cache: &Vec<(String, CachedArtist)>, artist: &str) -> (r: Option<usize>)
    ensures
        match r {
            Some(i) => first_artist_at(cache@, artist@, i as int),
            None => not_cached(cache@, artist@),
        },
{
    for i in 0..cache.len()
        invariant
            forall|j: int| 0 <= j < i ==> (#[trigger] cache@[j]).0@ != artist@,
    {
        if str_equals(cache[i].0.as_str(), artist) {
            return Some(i);
        }
    }
    None
}

fn find_album_named(albums: &Vec<CachedAlbum>, name: &str) -> (r: Option<usize>)
    ensures
        match r {
            Some(a) => a < albums@.len() && albums@[a as int].name@ == name@ && forall|b: int| 0 <= b < a ==> (#[trigger] albums@[b]).name@ != name@,
            None => forall|b: int| 0 <= b < albums@.len() ==> (#[trigger] albums@[b]).name@ != name@,
        },
{
    for a in 0..albums.len()
        invariant
            forall|b: int| 0 <= b < a ==> (#[trigger] albums@[b]).name@ != name@,
    {
        if str_equals(albums[a].name.as_str(), name) {
            return Some(a);
        }
    }
    None
}

impl BoxedPane for ArtistsPane {
}

impl ArtistsPane {
    /// A pane in `mode`, at the list of artists, not yet loaded.
    pub fn new(mode: ArtistsPaneMode) -> (r: ArtistsPane)
        ensures
            r.mode == mode,
            r.path@.len() == 0,
            !r.filter_input_mode,
            !r.initialized,
            r.cache@.len() == 0,
    {
        ArtistsPane { mode, path: Vec::new(), filter_input_mode: false, initialized: false, cache: Vec::new() }
    }

    /// The tag the pane lists.
    pub fn artist_tag(&self) -> (r: Tag)
        ensures
            r == match self.mode {
                ArtistsPaneMode::AlbumArtist => Tag::AlbumArtist,
                ArtistsPaneMode::Artist => Tag::Artist,
            },
    {
        match self.mode {
            ArtistsPaneMode::AlbumArtist => Tag::AlbumArtist,
            ArtistsPaneMode::Artist => Tag::Artist,
        }
    }

    /// The pane the pane's queries report to.
    pub fn target_pane(&self) -> (r: PaneTarget)
        ensures
            r == match self.mode {
                ArtistsPaneMode::AlbumArtist => PaneTarget::AlbumArtists,
                ArtistsPaneMode::Artist => PaneTarget::Artists,
            },
    {
        match self.mode {
            ArtistsPaneMode::AlbumArtist => PaneTarget::AlbumArtists,
            ArtistsPaneMode::Artist => PaneTarget::Artists,
        }
    }

    /// The request that lists every song of `artist` under the pane's tag.
    pub fn artist_songs(&self, artist: &str) -> (r: MpdRequest)
        ensures
            r@ == RequestView::Find(one_filter(
                match self.mode {
                    ArtistsPaneMode::AlbumArtist => Tag::AlbumArtist,
                    ArtistsPaneMode::Artist => Tag::Artist,
                },
                artist@,
            )),
    {
        MpdRequest::Find { filters: filters1(self.artist_tag(), artist) }
    }
}

impl ArtistsPane {
    /// Files the albums of `artist`'s songs in the cache (replacing what was
    /// there) and returns where.
    pub fn process_songs(&mut self, artist: String, data: Vec<Song>, display: AlbumDisplayMode, sort: AlbumSortMode) -> (r: usize)
        ensures
            r < final(self).cache@.len(),
            final(self).cache@[r as int].0@ == artist@,
            final(self).cache@[r as int].1.songs@ == data@,
            exists|keys: Seq<AlbumKey>| keys_of_songs(keys, data@)
                && albums_of(keys, final(self).cache@[r as int].1.albums@, display, sort),
            final(self).mode == old(self).mode,
            final(self).path@ == old(self).path@,
            first_artist_at(final(self).cache@, artist@, r as int),
            final(self).filter_input_mode == old(self).filter_input_mode,
            final(self).initialized == old(self).initialized,
            not_cached(old(self).cache@, artist@) ==> r == old(self).cache@.len() && final(self).cache@.len()
                == old(self).cache@.len() + 1,
            !not_cached(old(self).cache@, artist@) ==> first_artist_at(old(self).cache@, artist@, r as int)
                && final(self).cache@.len() == old(self).cache@.len(),
            forall|j: int| 0 <= j < old(self).cache@.len() && j != r ==> #[trigger] final(self).cache@[j] == old(self).cache@[j],
            distinct_artists(old(self).cache@) ==> distinct_artists(final(self).cache@),
    {
        let keys = artist_keys(&data);
        let albums = process_songs(&keys, display, sort);
        let entry = CachedArtist { songs: data, albums };
        match find_artist(&self.cache, artist.as_str()) {
            Some(i) => {
                let ghost pre = self.cache@;
                let _ = self.cache.remove(i);
                self.cache.insert(i, (artist, entry));
                proof {
                    let c = self.cache@;
                    assert(c =~= pre.update(i as int, c[i as int]));
                    assert forall|j: int| 0 <= j < i implies (#[trigger] c[j]).0@ != c[i as int].0@ by {
                        assert(c[j] == pre[j]);
                    }
                }
                i
            },
            None => {
                let ghost pre = self.cache@;
                self.cache.push((artist, entry));
                let i = self.cache.len() - 1;
                proof {
                    let c = self.cache@;
                    assert forall|j: int| 0 <= j < i implies (#[trigger] c[j]).0@ != c[i as int].0@ by {
                        assert(c[j] == pre[j]);
                    }
                }
                i
            },
        }
    }

    /// What opening the entry under the cursor does: at the list of artists,
    /// show the artist's albums when they are cached, or fetch its songs;
    /// inside an artist, show the songs of the album; inside an album,
    /// enqueue the song and, with `autoplay`, play it.
    pub fn open_or_play(&self, selected: Option<&BrowserEntry>, autoplay: bool) -> (r: ArtistStep)
        ensures
            match selected {
                None => r is Nothing,
                Some(e) => if self.path@.len() == 0 {
                    match r {
                        ArtistStep::ShowAlbums(names) => exists|i: int| first_artist_at(self.cache@, entry_name(*e), i)
                            && names@.len() == self.cache@[i].1.albums@.len()
                            && forall|a: int| 0 <= a < names@.len() ==> #[trigger] names@[a]@ == self.cache@[i].1.albums@[a].name@,
                        ArtistStep::Fetch(q) => not_cached(self.cache@, entry_name(*e)) && q@ == RequestView::Find(one_filter(
                            match self.mode {
                                ArtistsPaneMode::AlbumArtist => Tag::AlbumArtist,
                                ArtistsPaneMode::Artist => Tag::Artist,
                            },
                            entry_name(*e),
                        )),
                        _ => false,
                    }
                } else if self.path@.len() == 1 {
                    match r {
                        ArtistStep::ShowSongs(songs) => exists|i: int, a: int| first_artist_at(self.cache@, self.path@[0]@, i)
                            && 0 <= a < self.cache@[i].1.albums@.len()
                            && #[trigger] self.cache@[i].1.albums@[a].name@ == entry_name(*e)
                            && songs@ == self.cache@[i].1.albums@[a].songs@,
                        ArtistStep::Nothing => not_cached(self.cache@, self.path@[0]@) || exists|i: int| first_artist_at(self.cache@, self.path@[0]@, i)
                            && forall|a: int| 0 <= a < self.cache@[i].1.albums@.len()
                                ==> #[trigger] self.cache@[i].1.albums@[a].name@ != entry_name(*e),
                        _ => false,
                    }
                } else if self.path@.len() == 2 {
                    r matches ArtistStep::Add { file, play } && file@ == entry_name(*e) && play == autoplay
                } else {
                    r is Nothing
                },
            },
    {
        let e = match selected {
            Some(e) => e,
            None => {
                return ArtistStep::Nothing;
            },
        };
        let name = entry_name_exec(e);
        let depth = self.path.len();
        if depth == 0 {
            match find_artist(&self.cache, name) {
                Some(i) => {
                    let albums = &self.cache[i].1.albums;
                    let mut names: Vec<String> = Vec::new();
                    for a in 0..albums.len()
                        invariant
                            names@.len() == a,
                            forall|b: int| 0 <= b < a ==> #[trigger] names@[b]@ == albums@[b].name@,
                    {
                        names.push(albums[a].name.clone());
                    }
                    ArtistStep::ShowAlbums(names)
                },
                None => ArtistStep::Fetch(self.artist_songs(name)),
            }
        } else if depth == 1 {
            match find_artist(&self.cache, self.path[0].as_str()) {
                Some(i) => {
                    let albums = &self.cache[i].1.albums;
                    match find_album_named(albums, name) {
                        Some(a) => {
                            let mut songs: Vec<usize> = Vec::new();
                            let src = &albums[a].songs;
                            for j in 0..src.len()
                                invariant
                                    songs@ == src@.take(j as int),
                            {
                                songs.push(src[j]);
                                assert(songs@ =~= src@.take(j + 1));
                            }
                            assert(src@.take(src@.len() as int) =~= src@);
                            ArtistStep::ShowSongs(songs)
                        },
                        None => ArtistStep::Nothing,
                    }
                },
                None => ArtistStep::Nothing,
            }
        } else if depth == 2 {
            ArtistStep::Add { file: name.to_string(), play: autoplay }
        } else {
            ArtistStep::Nothing
        }
    }
}

/// What the preview column of the artists pane shows for the entry under
/// the cursor.
pub enum ArtistPreview {
    /// Nothing.
    Nothing,
    /// The details of a song of the cached artist at `artist` (a position
    /// in its songs), found in its album at `album`, or nothing when the
    /// album has no such file.
    SongDetails { artist: usize, album: usize, song: Option<usize> },
    /// The songs of the album at `album` of the cached artist at `artist`.
    AlbumSongs { artist: usize, album: usize, songs: Vec<usize> },
    /// The names of the artist's albums.
    AlbumNames(Vec<String>),
    /// Fetch the artist's songs with this request.
    Fetch(MpdRequest),
}

/// Album `a` is the first of `albums` named `name`.
pub open spec fn first_album_at(albums: Seq<CachedAlbum>, name: Seq<char>, a: int) -> bool {
    &&& 0 <= a < albums.len()
    &&& albums[a].name@ == name
    &&& forall|b: int| 0 <= b < a ==> (#[trigger] albums[b]).name@ != name
}

/// No album of `albums` is named `name`.
pub open spec fn no_album_named(albums: Seq<CachedAlbum>, name: Seq<char>) -> bool {
    forall|b: int| 0 <= b < albums.len() ==> (#[trigger] albums[b]).name@ != name
}

/// The position at `k` of an album's list names a song with `file`.
pub open spec fn holds_file(songs: Seq<Song>, album: Seq<usize>, k: int, file: Seq<char>) -> bool {
    album[k] < songs.len() && songs[album[k] as int].file@ == file
}

/// The first song of the album (positions `album` in `songs`) with `file`.
pub open spec fn first_with_file(songs: Seq<Song>, album: Seq<usize>, file: Seq<char>, found: Option<usize>) -> bool {
    match found {
        Some(p) => exists|k: int| 0 <= k < album.len() && album[k] == p && #[trigger] holds_file(songs, album, k, file)
            && forall|j: int| 0 <= j < k ==> !#[trigger] holds_file(songs, album, j, file),
        None => forall|k: int| 0 <= k < album.len() ==> !#[trigger] holds_file(songs, album, k, file),
    }
}

fn find_file_in_album(songs: &Vec<Song>, album: &Vec<usize>, file: &str) -> (r: Option<usize>)
    ensures
        first_with_file(songs@, album@, file@, r),
{
    for k in 0..album.len()
        invariant
            forall|j: int| 0 <= j < k ==> !#[trigger] holds_file(songs@, album@, j, file@),
    {
        let p = album[k];
        if p < songs.len() && str_equals(songs[p].file.as_str(), file) {
            assert(holds_file(songs@, album@, k as int, file@));
            return Some(p);
        }
    }
    None
}

/// What the artists pane previews for the entry named `c` under the
/// cursor, by the depth of its path.
pub open spec fn preview_fits(pane: ArtistsPane, c: Seq<char>, r: ArtistPreview) -> bool {
    if pane.path@.len() == 2 {
        match r {
            ArtistPreview::SongDetails { artist, album, song } => first_artist_at(pane.cache@, pane.path@[0]@, artist as int)
                && first_album_at(pane.cache@[artist as int].1.albums@, pane.path@[1]@, album as int)
                && first_with_file(pane.cache@[artist as int].1.songs@, pane.cache@[artist as int].1.albums@[album as int].songs@, c, song),
            ArtistPreview::Nothing => not_cached(pane.cache@, pane.path@[0]@) || exists|i: int|
                first_artist_at(pane.cache@, pane.path@[0]@, i) && #[trigger] no_album_named(pane.cache@[i].1.albums@, pane.path@[1]@),
            _ => false,
        }
    } else if pane.path@.len() == 1 {
        match r {
            ArtistPreview::AlbumSongs { artist, album, songs } => first_artist_at(pane.cache@, pane.path@[0]@, artist as int)
                && first_album_at(pane.cache@[artist as int].1.albums@, c, album as int)
                && songs@ == pane.cache@[artist as int].1.albums@[album as int].songs@,
            ArtistPreview::Nothing => not_cached(pane.cache@, pane.path@[0]@) || exists|i: int|
                first_artist_at(pane.cache@, pane.path@[0]@, i) && #[trigger] no_album_named(pane.cache@[i].1.albums@, c),
            _ => false,
        }
    } else if pane.path@.len() == 0 {
        match r {
            ArtistPreview::AlbumNames(names) => exists|i: int| #[trigger] first_artist_at(pane.cache@, c, i)
                && names@.len() == pane.cache@[i].1.albums@.len()
                && forall|a: int| 0 <= a < names@.len() ==> #[trigger] names@[a]@ == pane.cache@[i].1.albums@[a].name@,
            ArtistPreview::Fetch(q) => not_cached(pane.cache@, c) && q@ == RequestView::Find(one_filter(
                match pane.mode {
                    ArtistsPaneMode::AlbumArtist => Tag::AlbumArtist,
                    ArtistsPaneMode::Artist => Tag::Artist,
                },
                c,
            )),
            _ => false,
        }
    } else {
        r is Nothing
    }
}

impl ArtistsPane {
    fn preview_in_album(&self, c: &str) -> (r: ArtistPreview)
        requires
            self.path@.len() == 2,
        ensures
            preview_fits(*self, c@, r),
    {
        match find_artist(&self.cache, self.path[0].as_str()) {
            Some(i) => {
                let entry = &self.cache[i].1;
                match find_album_named(&entry.albums, self.path[1].as_str()) {
                    Some(a) => {
                        let found = find_file_in_album(&entry.songs, &entry.albums[a].songs, c);
                        ArtistPreview::SongDetails { artist: i, album: a, song: found }
                    },
                    None => {
                        assert(no_album_named(entry.albums@, self.path@[1]@));
                        assert(preview_fits(*self, c@, ArtistPreview::Nothing));
                        ArtistPreview::Nothing
                    },
                }
            },
            None => ArtistPreview::Nothing,
        }
    }

    fn preview_in_artist(&self, c: &str) -> (r: ArtistPreview)
        requires
            self.path@.len() == 1,
        ensures
            preview_fits(*self, c@, r),
    {
        match find_artist(&self.cache, self.path[0].as_str()) {
            Some(i) => {
                let albums = &self.cache[i].1.albums;
                match find_album_named(albums, c) {
                    Some(a) => {
                        let src = &albums[a].songs;
                        let mut songs: Vec<usize> = Vec::new();
                        for j in 0..src.len()
                            invariant
                                songs@ == src@.take(j as int),
                        {
                            songs.push(src[j]);
                            assert(songs@ =~= src@.take(j + 1));
                        }
                        assert(src@.take(src@.len() as int) =~= src@);
                        ArtistPreview::AlbumSongs { artist: i, album: a, songs }
                    },
                    None => {
                        assert(no_album_named(albums@, c@));
                        assert(preview_fits(*self, c@, ArtistPreview::Nothing));
                        ArtistPreview::Nothing
                    },
                }
            },
            None => ArtistPreview::Nothing,
        }
    }

    fn preview_at_top(&self, c: &str) -> (r: ArtistPreview)
        requires
            self.path@.len() == 0,
        ensures
            preview_fits(*self, c@, r),
    {
        match find_artist(&self.cache, c) {
            Some(i) => {
                let albums = &self.cache[i].1.albums;
                let mut names: Vec<String> = Vec::new();
                for a in 0..albums.len()
                    invariant
                        names@.len() == a,
                        forall|b: int| 0 <= b < a ==> #[trigger] names@[b]@ == albums@[b].name@,
                {
                    names.push(albums[a].name.clone());
                }
                ArtistPreview::AlbumNames(names)
            },
            None => ArtistPreview::Fetch(self.artist_songs(c)),
        }
    }

    /// What to preview for the entry named `current` under the cursor:
    /// inside an album, the details of its song with that file; inside an
    /// artist, the songs of the album of that name; at the top, the album
    /// names of that artist when cached, or else a request for its songs.
    /// Nothing when the artist or the album is not in the cache.
    pub fn preview(&self, current: Option<&str>) -> (r: ArtistPreview)
        ensures
            match current {
                None => r is Nothing,
                Some(c) => preview_fits(*self, c@, r),
            },
    {
        match current {
            None => ArtistPreview::Nothing,
            Some(c) => {
                let depth = self.path.len();
                if depth == 2 {
                    self.preview_in_album(c)
                } else if depth == 1 {
                    self.preview_in_artist(c)
                } else if depth == 0 {
                    self.preview_at_top(c)
                } else {
                    ArtistPreview::Nothing
                }
            },
        }
    }
}

/// Why the songs of an artist were fetched.
#[derive(Clone, Copy, PartialEq, Eq, Structural, Debug)]
pub enum ArtistQuery {
    /// To preview the artist under the cursor.
    Preview,
    /// To open the artist.
    Open,
}

/// What arriving songs of an artist lead to.
pub enum ArtistResult {
    /// They came for an artist no longer open; nothing is kept.
    Dropped,
    /// They are cached (at this cache entry) but not shown: the cursor
    /// moved on.
    CachedOnly(usize),
    /// They are cached at `at`; preview these album names.
    Preview { at: usize, names: Vec<String> },
    /// They are cached at `at`; show these album names as the artist's
    /// column.
    Albums { at: usize, names: Vec<String> },
}

/// `names` are the names of `albums`, in order.
pub open spec fn album_names(names: Seq<String>, albums: Seq<CachedAlbum>) -> bool {
    &&& names.len() == albums.len()
    &&& forall|a: int| 0 <= a < names.len() ==> #[trigger] names[a]@ == albums[a].name@
}

/// Cache entry `at` holds `artist` with `data` and the albums they make.
pub open spec fn cached_as(pane: ArtistsPane, at: int, artist: Seq<char>, data: Seq<Song>, display: AlbumDisplayMode, sort: AlbumSortMode) -> bool {
    &&& first_artist_at(pane.cache@, artist, at)
    &&& pane.cache@[at].1.songs@ == data
    &&& exists|keys: Seq<AlbumKey>| keys_of_songs(keys, data) && #[trigger] albums_of(keys, pane.cache@[at].1.albums@, display, sort)
}

fn names_of(albums: &Vec<CachedAlbum>) -> (r: Vec<String>)
    ensures
        album_names(r@, albums@),
{
    let mut names: Vec<String> = Vec::new();
    for a in 0..albums.len()
        invariant
            names@.len() == a,
            forall|b: int| 0 <= b < a ==> #[trigger] names@[b]@ == albums@[b].name@,
    {
        names.push(albums[a].name.clone());
    }
    names
}

impl ArtistsPane {
    /// Files the songs of `artist` that a query brought; `current` is the
    /// entry under the cursor. A preview's songs are always cached, and
    /// shown when the cursor is still on the artist; an opening's songs are
    /// kept and shown only when the artist is still the one open.
    pub fn on_songs(
        &mut self,
        query: ArtistQuery,
        artist: String,
        data: Vec<Song>,
        current: Option<&str>,
        display: AlbumDisplayMode,
        sort: AlbumSortMode,
    ) -> (r: ArtistResult)
        ensures
            final(self).mode == old(self).mode,
            final(self).path@ == old(self).path@,
            match query {
                ArtistQuery::Preview => match r {
                    ArtistResult::Preview { at, names } => (current matches Some(c) && c@ == artist@)
                        && cached_as(*final(self), at as int, artist@, data@, display, sort)
                        && album_names(names@, final(self).cache@[at as int].1.albums@),
                    ArtistResult::CachedOnly(at) => !(current matches Some(c) && c@ == artist@)
                        && cached_as(*final(self), at as int, artist@, data@, display, sort),
                    _ => false,
                },
                ArtistQuery::Open => if old(self).path@.len() > 0 && old(self).path@[0]@ == artist@ {
                    r matches ArtistResult::Albums { at, names } && cached_as(*final(self), at as int, artist@, data@, display, sort)
                        && album_names(names@, final(self).cache@[at as int].1.albums@)
                } else {
                    r is Dropped && final(self).cache@ == old(self).cache@
                },
            },
    {
        match query {
            ArtistQuery::Preview => {
                let show = match current {
                    Some(c) => str_equals(c, artist.as_str()),
                    None => false,
                };
                let at = self.process_songs(artist, data, display, sort);
                if show {
                    let names = names_of(&self.cache[at].1.albums);
                    ArtistResult::Preview { at, names }
                } else {
                    ArtistResult::CachedOnly(at)
                }
            },
            ArtistQuery::Open => {
                let open = self.path.len() > 0 && str_equals(self.path[0].as_str(), artist.as_str());
                if open {
                    let at = self.process_songs(artist, data, display, sort);
                    let names = names_of(&self.cache[at].1.albums);
                    ArtistResult::Albums { at, names }
                } else {
                    ArtistResult::Dropped
                }
            },
        }
    }
}

/// Where the cursor goes in a reloaded list: on the first entry named
/// `name`, or else at the same index as before.
pub open spec fn reselected(items: Seq<String>, name: Seq<char>, previous: int) -> int {
    if exists|i: int| 0 <= i < items.len() && items[i]@ == name {
        choose|i: int| 0 <= i < items.len() && items[i]@ == name && forall|j: int| 0 <= j < i ==> (#[trigger] items[j])@ != name
    } else {
        previous
    }
}

/// After a reload the cursor lands on an entry of the name that was
/// selected whenever the new list still holds one (the first such); when it
/// does not, on the old index, kept inside the list.
pub proof fn law_reselect_keeps_the_name(items: Seq<String>, name: Seq<char>, previous: int)
    requires
        items.len() > 0,
        0 <= previous,
    ensures
        0 <= within(reselected(items, name, previous), items.len() as int) < items.len(),
        (exists|i: int| 0 <= i < items.len() && items[i]@ == name) ==> {
            let k = reselected(items, name, previous);
            &&& within(k, items.len() as int) == k
            &&& items[k]@ == name
            &&& forall|j: int| 0 <= j < k ==> (#[trigger] items[j])@ != name
        },
        !(exists|i: int| 0 <= i < items.len() && items[i]@ == name) ==> within(
            reselected(items, name, previous),
            items.len() as int,
        ) == if previous < items.len() {
            previous
        } else {
            items.len() - 1
        },
{
    if exists|i: int| 0 <= i < items.len() && items[i]@ == name {
        let i = choose|i: int| 0 <= i < items.len() && items[i]@ == name;
        lemma_first_named(items, name, i);
    }
}

proof fn lemma_first_named(items: Seq<String>, name: Seq<char>, i: int)
    requires
        0 <= i < items.len(),
        items[i]@ == name,
    ensures
        exists|k: int| 0 <= k <= i && items[k]@ == name && forall|j: int| 0 <= j < k ==> (#[trigger] items[j])@ != name,
    decreases i,
{
    if exists|j: int| 0 <= j < i && items[j]@ == name {
        let j = choose|j: int| 0 <= j < i && items[j]@ == name;
        lemma_first_named(items, name, j);
    } else {
        assert(forall|j: int| 0 <= j < i ==> (#[trigger] items[j])@ != name);
    }
}

/// What moving the chosen songs of an open playlist leads to.
pub enum PlaylistMove {
    /// Nothing moves: no playlist is open, or the marked songs are already
    /// at the edge.
    Nothing,
    /// Nothing is marked and no song is selected.
    NoSelection,
    /// Send these requests; the marks become `marked`, and the cursor goes
    /// to `selected` when one is given.
    Moved { requests: Vec<MpdRequest>, marked: Vec<usize>, selected: Option<usize> },
}

/// The requests that move each block of marked songs one place.
pub open spec fn block_moves(playlist: Seq<char>, blocks: Seq<(usize, usize)>, up: bool) -> Seq<RequestView> {
    blocks.map_values(
        |b: (usize, usize)|
            RequestView::MoveRangeInPlaylist(
                playlist,
                b.0 as int,
                b.1 as int,
                if up {
                    b.0 - 1
                } else {
                    b.0 + 1
                },
            ),
    )
}

/// The views of a list of requests.
pub open spec fn requests_view(v: Seq<MpdRequest>) -> Seq<RequestView> {
    v.map_values(|q: MpdRequest| q@)
}

impl PlaylistsPane {
    /// Moves the chosen songs of the open playlist (`playlist`, the entry
    /// selected in the column of playlists) one place up or down, in a
    /// column of `len` songs: the marked blocks when songs are marked
    /// (unless a block already touches that edge), or else the song under
    /// the cursor, kept inside the column.
    pub fn move_selected(
        playlist: Option<&str>,
        marked: &Vec<usize>,
        selected: Option<usize>,
        len: usize,
        up: bool,
    ) -> (r: PlaylistMove)
        requires
            crate::queue::strictly_increasing(marked@),
            forall|k: int| 0 <= k < marked@.len() ==> #[trigger] marked@[k] < len,
            selected matches Some(i) ==> i < len,
        ensures
            match playlist {
                None => r is Nothing,
                Some(pl) => if marked@.len() == 0 {
                    match selected {
                        None => r is NoSelection,
                        Some(i) => r matches PlaylistMove::Moved { requests, marked: m, selected: s }
                            && requests_view(requests@) == seq![RequestView::MoveInPlaylist(
                                pl@,
                                i as int,
                                if up {
                                    if i == 0 { 0 } else { i - 1 }
                                } else {
                                    if i + 1 < len { i + 1 } else { len - 1 }
                                },
                            )] && m@.len() == 0 && s == Some((if up {
                                if i == 0 { 0 } else { i - 1 }
                            } else {
                                if i + 1 < len { i + 1 } else { len - 1 }
                            }) as usize),
                    }
                } else if (up && marked@[0] == 0) || (!up && marked@.last() == len - 1) {
                    r is Nothing
                } else {
                    r matches PlaylistMove::Moved { requests, marked: m, selected: s }
                        && requests_view(requests@) == block_moves(pl@, crate::queue::runs(marked@), up)
                        && m@.len() == marked@.len()
                        && (forall|k: int| 0 <= k < m@.len() ==> #[trigger] m@[k] == if up {
                            marked@[k] - 1
                        } else {
                            marked@[k] + 1
                        })
                        && s is None
                },
            },
    {
        let pl = match playlist {
            Some(p) => p,
            None => {
                return PlaylistMove::Nothing;
            },
        };
        if marked.len() == 0 {
            return match selected {
                None => PlaylistMove::NoSelection,
                Some(i) => {
                    let to = if up {
                        if i == 0 {
                            0
                        } else {
                            i - 1
                        }
                    } else {
                        if i + 1 < len {
                            i + 1
                        } else {
                            len - 1
                        }
                    };
                    let requests = vec![MpdRequest::MoveInPlaylist { playlist: pl.to_string(), from: i, to }];
                    assert(requests_view(requests@) =~= seq![RequestView::MoveInPlaylist(pl@, i as int, to as int)]);
                    PlaylistMove::Moved { requests, marked: Vec::new(), selected: Some(to) }
                },
            };
        }
        let n = marked.len();
        if (up && marked[0] == 0) || (!up && marked[n - 1] == len - 1) {
            return PlaylistMove::Nothing;
        }
        assert forall|k: int| 0 <= k < n implies marked@[0] <= #[trigger] marked@[k] <= marked@[n - 1] by {
            if k > 0 {
                assert(marked@[0] < marked@[k]);
            }
            if k < n - 1 {
                assert(marked@[k] < marked@[n - 1]);
            }
        }
        let blocks = crate::queue::marked_ranges(marked);
        let mut requests: Vec<MpdRequest> = Vec::new();
        for b in 0..blocks.len()
            invariant
                blocks@ == crate::queue::runs(marked@),
                forall|k: int| 0 <= k < blocks@.len() ==> marked@.contains(#[trigger] blocks@[k].0) && marked@.contains(blocks@[k].1),
                forall|k: int| 0 <= k < n ==> marked@[0] <= #[trigger] marked@[k] <= marked@[n - 1],
                n == marked@.len(),
                n > 0,
                up ==> marked@[0] > 0,
                !up ==> marked@[n - 1] < len - 1,
                requests_view(requests@) == block_moves(pl@, blocks@.take(b as int), up),
        {
            let (first, last) = blocks[b];
            assert(marked@.contains(blocks@[b as int].0));
            let to = if up {
                first - 1
            } else {
                first + 1
            };
            let ghost before = requests@;
            requests.push(MpdRequest::MoveRangeInPlaylist { playlist: pl.to_string(), first, last, to });
            assert(requests_view(requests@) =~= requests_view(before).push(requests@[b as int]@));
            assert(blocks@.take(b + 1) =~= blocks@.take(b as int).push(blocks@[b as int]));
            assert(block_moves(pl@, blocks@.take(b + 1), up) =~= block_moves(pl@, blocks@.take(b as int), up).push(
                RequestView::MoveRangeInPlaylist(pl@, first as int, last as int, to as int),
            ));
        }
        assert(blocks@.take(blocks@.len() as int) =~= blocks@);
        let mut moved: Vec<usize> = Vec::new();
        for k in 0..n
            invariant
                n == marked@.len(),
                n > 0,
                forall|j: int| 0 <= j < n ==> marked@[0] <= #[trigger] marked@[j] <= marked@[n - 1],
                up ==> marked@[0] > 0,
                !up ==> marked@[n - 1] < len - 1,
                moved@.len() == k,
                forall|j: int| 0 <= j < k ==> #[trigger] moved@[j] == if up {
                    marked@[j] - 1
                } else {
                    marked@[j] + 1
                },
        {
            let m = marked[k];
            assert(marked@[0] <= marked@[k as int] <= marked@[n - 1]);
            moved.push(if up {
                m - 1
            } else {
                m + 1
            });
        }
        PlaylistMove::Moved { requests, marked: moved, selected: None }
    }
}

/// `i` kept inside a list of `len` entries: the last entry when past it.
pub open spec fn within(i: int, len: int) -> int {
    if i < len {
        i
    } else {
        len - 1
    }
}

fn clamp_index(i: usize, len: usize) -> (r: usize)
    requires
        len > 0,
    ensures
        r == within(i as int, len as int),
        r < len,
{
    if i < len {
        i
    } else {
        len - 1
    }
}

/// The index to select in a reloaded list.
pub fn index_to_reselect(items: &Vec<String>, name: &str, previous: usize) -> (r: usize)
    ensures
        r == reselected(items@, name@, previous as int),
{
    for i in 0..items.len()
        invariant
            forall|j: int| 0 <= j < i ==> (#[trigger] items@[j])@ != name@,
    {
        if str_equals(items[i].as_str(), name) {
            proof {
                let k = choose|k: int| 0 <= k < items@.len() && items@[k]@ == name@ && forall|j: int| 0 <= j < k ==> (#[trigger] items@[j])@ != name@;
                if k < i {
                    assert(items@[k]@ != name@);
                } else if k > i {
                    assert(items@[i as int]@ != name@);
                }
            }
            return i;
        }
    }
    previous
}

/// The playlists pane: the playlist opened, if any.
pub struct PlaylistsPane {
    pub path: Vec<String>,
    pub filter_input_mode: bool,
}

impl BoxedPane for PlaylistsPane {
}

/// What reloading the list of playlists leads to.
pub enum ReinitPlan {
    Nothing,
    /// Select this playlist of the new list.
    Select(usize),
    /// Select this playlist of the new list, fetch its songs and enter it.
    Enter { index: usize, playlist: String },
}

impl PlaylistsPane {
    /// A pane at the list of playlists.
    pub fn new() -> (r: PlaylistsPane)
        ensures
            r.path@.len() == 0,
            !r.filter_input_mode,
    {
        PlaylistsPane { path: Vec::new(), filter_input_mode: false }
    }

    /// What to do once the list of playlists was reloaded as `playlists`;
    /// `selected` is the playlist that was selected (with its index) in the
    /// column of playlists. The cursor goes to the playlist of the same name,
    /// or else to the same index, kept inside the new list. Inside a
    /// playlist that playlist is entered again (the opened playlist's name
    /// stands for the selection when there was none); at the top it is only
    /// selected. Nothing happens when no playlist is left.
    pub fn reinit(&self, playlists: &Vec<String>, selected: Option<(usize, &str)>) -> (r: ReinitPlan)
        ensures
            self.path@.len() == 1 ==> {
                let (idx, name) = match selected {
                    Some(p) => (p.0 as int, p.1@),
                    None => (0int, self.path@[0]@),
                };
                let target = within(reselected(playlists@, name, idx), playlists@.len() as int);
                if playlists@.len() > 0 {
                    r matches ReinitPlan::Enter { index, playlist } && index == target && playlist@ == playlists@[target]@
                } else {
                    r is Nothing
                }
            },
            self.path@.len() == 0 ==> match selected {
                Some(p) => if playlists@.len() > 0 {
                    r matches ReinitPlan::Select(index) && index == within(
                        reselected(playlists@, p.1@, p.0 as int),
                        playlists@.len() as int,
                    )
                } else {
                    r is Nothing
                },
                None => r is Nothing,
            },
            self.path@.len() > 1 ==> r is Nothing,
    {
        let depth = self.path.len();
        if playlists.len() == 0 {
            return ReinitPlan::Nothing;
        }
        if depth == 1 {
            let (idx, name) = match selected {
                Some(p) => (p.0, p.1),
                None => (0, self.path[0].as_str()),
            };
            let target = clamp_index(index_to_reselect(playlists, name, idx), playlists.len());
            ReinitPlan::Enter { index: target, playlist: playlists[target].clone() }
        } else if depth == 0 {
            match selected {
                Some(p) => ReinitPlan::Select(clamp_index(index_to_reselect(playlists, p.1, p.0), playlists.len())),
                None => ReinitPlan::Nothing,
            }
        } else {
            ReinitPlan::Nothing
        }
    }

    /// Where the cursor goes in the reloaded songs of the playlist (their
    /// files `files`): on the song that was selected (`previous`, with its
    /// index), found by file or else by index, kept inside the list; none
    /// when nothing was selected or no song is left.
    pub fn reselect_song(files: &Vec<String>, previous: Option<(usize, &str)>) -> (r: Option<usize>)
        ensures
            match previous {
                Some(p) => if files@.len() > 0 {
                    r == Some(within(reselected(files@, p.1@, p.0 as int), files@.len() as int) as usize)
                } else {
                    r is None
                },
                None => r is None,
            },
    {
        match previous {
            Some(p) => if files.len() > 0 {
                Some(clamp_index(index_to_reselect(files, p.1, p.0), files.len()))
            } else {
                None
            },
            None => None,
        }
    }
}


/// Where the songs of a browsing entry come from when it is enqueued or
/// played.
pub enum EntrySongs {
    /// The songs this request finds.
    Query(MpdRequest),
    /// These songs.
    Songs(Vec<Song>),
}

/// The songs of an entry of the albums pane: an album's songs are found
/// by its name, a song is its own.
pub fn album_item_songs(item: BrowserEntry) -> (r: EntrySongs)
    ensures
        match item {
            BrowserEntry::Dir { name, .. } => r matches EntrySongs::Query(q) && q@ == RequestView::Find(one_filter(Tag::Album, name@)),
            BrowserEntry::Song(s) => r matches EntrySongs::Songs(v) && v@ == seq![s],
        },
{
    match item {
        BrowserEntry::Dir { name, .. } => EntrySongs::Query(MpdRequest::Find { filters: filters1(Tag::Album, name.as_str()) }),
        BrowserEntry::Song(s) => EntrySongs::Songs(vec![s]),
    }
}

impl DirectoriesPane {
    /// The songs of an entry: those of every file whose path starts with a
    /// directory's full path, or the song itself.
    pub fn list_songs_in_item(&self, item: BrowserEntry) -> (r: EntrySongs)
        ensures
            match item {
                BrowserEntry::Dir { full_path, .. } => r matches EntrySongs::Query(q)
                    && q@ == RequestView::FindMatching(Tag::File, full_path@, FilterKind::StartsWith),
                BrowserEntry::Song(s) => r matches EntrySongs::Songs(v) && v@ == seq![s],
            },
    {
        match item {
            BrowserEntry::Dir { full_path, .. } => EntrySongs::Query(
                MpdRequest::FindMatching { tag: Tag::File, value: full_path, kind: FilterKind::StartsWith },
            ),
            BrowserEntry::Song(s) => EntrySongs::Songs(vec![s]),
        }
    }
}

impl PlaylistsPane {
    /// The songs of an entry: a stored playlist's songs, or the song
    /// itself.
    pub fn list_songs_in_item(&self, item: BrowserEntry) -> (r: EntrySongs)
        ensures
            match item {
                BrowserEntry::Dir { name, .. } => r matches EntrySongs::Query(q) && q@ == RequestView::ListPlaylist(name@),
                BrowserEntry::Song(s) => r matches EntrySongs::Songs(v) && v@ == seq![s],
            },
    {
        match item {
            BrowserEntry::Dir { name, .. } => EntrySongs::Query(MpdRequest::ListPlaylist { name }),
            BrowserEntry::Song(s) => EntrySongs::Songs(vec![s]),
        }
    }
}

/// The tag an artists pane in `mode` lists.
pub open spec fn mode_tag(mode: ArtistsPaneMode) -> Tag {
    match mode {
        ArtistsPaneMode::AlbumArtist => Tag::AlbumArtist,
        ArtistsPaneMode::Artist => Tag::Artist,
    }
}

/// The album tag behind the album `name` of `artist`, as the cache has it:
/// that of the first album so named of the first cache entry of the
/// artist, or the empty text when there is none.
pub open spec fn album_original(cache: Seq<(String, CachedArtist)>, artist: Seq<char>, name: Seq<char>) -> Seq<char> {
    if exists|i: int, a: int| first_artist_at(cache, artist, i) && #[trigger] first_album_at(cache[i].1.albums@, name, a) {
        let (i, a) = choose|i: int, a: int| first_artist_at(cache, artist, i) && #[trigger] first_album_at(cache[i].1.albums@, name, a);
        cache[i].1.albums@[a].original_name@
    } else {
        Seq::empty()
    }
}

proof fn lemma_first_artist_unique(cache: Seq<(String, CachedArtist)>, artist: Seq<char>, i: int, j: int)
    requires
        first_artist_at(cache, artist, i),
        first_artist_at(cache, artist, j),
    ensures
        i == j,
{
    if i < j {
        assert(cache[i].0@ != artist);
    } else if j < i {
        assert(cache[j].0@ != artist);
    }
}

proof fn lemma_first_album_unique(albums: Seq<CachedAlbum>, name: Seq<char>, a: int, b: int)
    requires
        first_album_at(albums, name, a),
        first_album_at(albums, name, b),
    ensures
        a == b,
{
    if a < b {
        assert(albums[a].name@ != name);
    } else if b < a {
        assert(albums[b].name@ != name);
    }
}

impl ArtistsPane {
    /// The songs of an entry: at the list of artists, those of the
    /// artist; inside an artist, those of the album under its album tag
    /// and of the artist; a song is its own; deeper, none.
    pub fn list_songs_in_item(&self, item: BrowserEntry) -> (r: EntrySongs)
        ensures
            match item {
                BrowserEntry::Dir { name, .. } => if self.path@.len() == 0 {
                    r matches EntrySongs::Query(q) && q@ == RequestView::Find(one_filter(mode_tag(self.mode), name@))
                } else if self.path@.len() == 1 {
                    r matches EntrySongs::Query(q) && q@ == RequestView::Find(
                        two_filters(
                            Tag::Album,
                            album_original(self.cache@, self.path@[0]@, name@),
                            mode_tag(self.mode),
                            self.path@[0]@,
                        ),
                    )
                } else {
                    r matches EntrySongs::Songs(v) && v@.len() == 0
                },
                BrowserEntry::Song(s) => r matches EntrySongs::Songs(v) && v@ == seq![s],
            },
    {
        match item {
            BrowserEntry::Dir { name, .. } => {
                if self.path.len() == 0 {
                    EntrySongs::Query(MpdRequest::Find { filters: filters1(self.artist_tag(), name.as_str()) })
                } else if self.path.len() == 1 {
                    let artist = self.path[0].as_str();
                    let original: String = match find_artist(&self.cache, artist) {
                        Some(i) => match find_album_named(&self.cache[i].1.albums, name.as_str()) {
                            Some(a) => {
                                proof {
                                    let cache = self.cache@;
                                    let ghost ii = i as int;
                                    let ghost aa = a as int;
                                    assert(first_album_at(cache[ii].1.albums@, name@, aa));
                                    assert(exists|i: int, a: int| first_artist_at(cache, artist@, i) && #[trigger] first_album_at(cache[i].1.albums@, name@, a));
                                    let (ci, ca) = choose|i: int, a: int| first_artist_at(cache, artist@, i) && #[trigger] first_album_at(cache[i].1.albums@, name@, a);
                                    lemma_first_artist_unique(cache, artist@, ci, ii);
                                    lemma_first_album_unique(cache[ii].1.albums@, name@, ca, aa);
                                }
                                self.cache[i].1.albums[a].original_name.clone()
                            },
                            None => {
                                proof {
                                    let cache = self.cache@;
                                    assert forall|ci: int, ca: int| !(first_artist_at(cache, artist@, ci) && #[trigger] first_album_at(cache[ci].1.albums@, name@, ca)) by {
                                        if first_artist_at(cache, artist@, ci) {
                                            lemma_first_artist_unique(cache, artist@, ci, i as int);
                                        }
                                    }
                                }
                                String::new()
                            },
                        },
                        None => {
                            proof {
                                let cache = self.cache@;
                                assert forall|ci: int, ca: int| !(first_artist_at(cache, artist@, ci) && #[trigger] first_album_at(cache[ci].1.albums@, name@, ca)) by {
                                    if first_artist_at(cache, artist@, ci) {
                                        assert(cache[ci].0@ != artist@);
                                    }
                                }
                            }
                            String::new()
                        },
                    };
                    EntrySongs::Query(MpdRequest::Find { filters: filters2(Tag::Album, original.as_str(), self.artist_tag(), artist) })
                } else {
                    EntrySongs::Songs(Vec::new())
                }
            },
            BrowserEntry::Song(s) => EntrySongs::Songs(vec![s]),
        }
    }
}

} // verus!
