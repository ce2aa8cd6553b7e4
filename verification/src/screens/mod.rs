//! The screens of the client, the order in which the tab keys visit them,
//! the navigation actions they share, and the requests a browsing screen
//! sends to the player daemon.
use vstd::prelude::*;

use crate::search::FilterKind;
use crate::text::{contains_ignore_case, contains_ignoring_case, contains_seq, str_contains};

pub mod albums;
pub mod artists;
pub mod browser;
pub mod directories;
pub mod entry_order;
pub mod playlists;
pub mod queue;
pub mod search;

verus! {

/// The screens, in tab order.
#[derive(Clone, Copy, PartialEq, Eq, Structural, Debug)]
pub enum Screens {
    Queue,
    /// The log viewer, part of development builds.
    Logs,
    Directories,
    Artists,
    Albums,
    Playlists,
}

/// The place of a screen in the tab order.
pub open spec fn screen_index(s: Screens) -> int {
    match s {
        Screens::Queue => 0,
        Screens::Logs => 1,
        Screens::Directories => 2,
        Screens::Artists => 3,
        Screens::Albums => 4,
        Screens::Playlists => 5,
    }
}

/// The screen after `s`, the last wrapping to the first. The cycle is that
/// of a build with debug assertions, which has the logs screen; a release
/// build has no logs screen and goes from the queue to the directories.
pub open spec fn next_screen(s: Screens) -> Screens {
    match s {
        Screens::Queue => Screens::Logs,
        Screens::Logs => Screens::Directories,
        Screens::Directories => Screens::Artists,
        Screens::Artists => Screens::Albums,
        Screens::Albums => Screens::Playlists,
        Screens::Playlists => Screens::Queue,
    }
}

/// The screen before `s`, the first wrapping to the last (in a build with
/// debug assertions, as `next_screen` says).
pub open spec fn prev_screen(s: Screens) -> Screens {
    match s {
        Screens::Queue => Screens::Playlists,
        Screens::Playlists => Screens::Albums,
        Screens::Albums => Screens::Artists,
        Screens::Artists => Screens::Directories,
        Screens::Directories => Screens::Logs,
        Screens::Logs => Screens::Queue,
    }
}

impl Screens {
    /// The screen the next-tab key shows.
    pub fn next(self) -> (r: Self)
        ensures
            r == next_screen(self),
            screen_index(r) == (screen_index(self) + 1) % 6,
    {
        match self {
            Screens::Queue => Screens::Logs,
            Screens::Logs => Screens::Directories,
            Screens::Directories => Screens::Artists,
            Screens::Artists => Screens::Albums,
            Screens::Albums => Screens::Playlists,
            Screens::Playlists => Screens::Queue,
        }
    }

    /// The screen the previous-tab key shows.
    pub fn prev(self) -> (r: Self)
        ensures
            r == prev_screen(self),
            screen_index(r) == (screen_index(self) + 5) % 6,
    {
        match self {
            Screens::Queue => Screens::Playlists,
            Screens::Playlists => Screens::Albums,
            Screens::Albums => Screens::Artists,
            Screens::Artists => Screens::Directories,
            Screens::Directories => Screens::Logs,
            Screens::Logs => Screens::Queue,
        }
    }
}

impl Default for Screens {
    /// The queue is shown first.
    fn default() -> (r: Self)
        ensures
            r == Screens::Queue,
    {
        Screens::Queue
    }
}

/// Going to the previous screen undoes going to the next one, and the other
/// way round.
pub proof fn law_prev_undoes_next(s: Screens)
    ensures
        prev_screen(next_screen(s)) == s,
        next_screen(prev_screen(s)) == s,
{
}

/// The screen reached from `s` by `k` presses of the next-tab key.
pub open spec fn advance(s: Screens, k: nat) -> Screens
    decreases k,
{
    if k == 0 {
        s
    } else {
        next_screen(advance(s, (k - 1) as nat))
    }
}

/// Pressing the next-tab key comes back after six presses, and reaches any
/// screen `t` from `s` within fewer presses: as many as `t` lies after `s`
/// in the tab order.
pub proof fn law_next_visits_every_screen(s: Screens, t: Screens)
    ensures
        advance(s, 6) == s,
        advance(s, ((screen_index(t) - screen_index(s) + 6) % 6) as nat) == t,
{
    reveal_with_fuel(advance, 7);
}

/// The navigation actions every screen handles.
#[derive(Clone, Copy, PartialEq, Eq, Structural, Debug, Hash)]
pub enum CommonAction {
    Down,
    Up,
    MoveDown,
    MoveUp,
    DownHalf,
    UpHalf,
    Right,
    Left,
    Top,
    Bottom,
    EnterSearch,
    NextResult,
    PreviousResult,
    Select,
    Rename,
    Close,
    Confirm,
    FocusInput,
    Add,
    Delete,
}

/// The actions of the logs screen.
#[derive(Clone, Copy, PartialEq, Eq, Structural, Debug, Hash)]
pub enum LogsActions {
    Clear,
}

/// A tag of the player daemon's database.
#[derive(Clone, Copy, PartialEq, Eq, Structural, Debug)]
pub enum Tag {
    Any,
    Artist,
    AlbumArtist,
    Album,
    Title,
    File,
    Genre,
}

/// A filter of a database query: the tag must have the value.
pub struct Filter {
    pub tag: Tag,
    pub value: String,
}

impl Filter {
    /// A filter on `tag` with `value`.
    pub fn new(tag: Tag, value: &str) -> (r: Filter)
        ensures
            r.tag == tag,
            r.value@ == value@,
    {
        Filter { tag, value: value.to_string() }
    }
}

/// The tags and values of a list of filters.
pub open spec fn filters_view(fs: Seq<Filter>) -> Seq<(Tag, Seq<char>)> {
    fs.map_values(|f: Filter| (f.tag, f.value@))
}

/// A request to the player daemon.
pub enum MpdRequest {
    /// The values of `tag` among the songs that pass the filters.
    ListTag { tag: Tag, filters: Vec<Filter> },
    /// The songs that pass the filters.
    Find { filters: Vec<Filter> },
    /// Enqueue the songs that pass the filters.
    FindAdd { filters: Vec<Filter> },
    /// Enqueue a file or a directory.
    Add { path: String },
    /// The contents of a directory.
    LsInfo { path: String },
    /// Enqueue a stored playlist.
    LoadPlaylist { name: String },
    /// The files of a stored playlist.
    ListPlaylist { name: String },
    DeletePlaylist { name: String },
    /// Remove the song at `index` from a stored playlist.
    DeleteFromPlaylist { playlist: String, index: usize },
    /// Move the song at `from` of a stored playlist to `to`.
    MoveInPlaylist { playlist: String, from: usize, to: usize },
    /// Move the songs `first..=last` of a stored playlist so that they start
    /// at `to`.
    MoveRangeInPlaylist { playlist: String, first: usize, last: usize, to: usize },
    /// The songs whose `tag` matches `value` in the way `kind` says.
    FindMatching { tag: Tag, value: String, kind: FilterKind },
}

/// The meaning of a request, over plain values.
pub enum RequestView {
    ListTag(Tag, Seq<(Tag, Seq<char>)>),
    Find(Seq<(Tag, Seq<char>)>),
    FindAdd(Seq<(Tag, Seq<char>)>),
    Add(Seq<char>),
    LsInfo(Seq<char>),
    LoadPlaylist(Seq<char>),
    ListPlaylist(Seq<char>),
    DeletePlaylist(Seq<char>),
    DeleteFromPlaylist(Seq<char>, int),
    MoveInPlaylist(Seq<char>, int, int),
    MoveRangeInPlaylist(Seq<char>, int, int, int),
    FindMatching(Tag, Seq<char>, FilterKind),
}

impl View for MpdRequest {
    type V = RequestView;

    open spec fn view(&self) -> RequestView {
        match self {
            MpdRequest::ListTag { tag, filters } => RequestView::ListTag(
                *tag,
                filters_view(filters@),
            ),
            MpdRequest::Find { filters } => RequestView::Find(filters_view(filters@)),
            MpdRequest::FindAdd { filters } => RequestView::FindAdd(filters_view(filters@)),
            MpdRequest::Add { path } => RequestView::Add(path@),
            MpdRequest::LsInfo { path } => RequestView::LsInfo(path@),
            MpdRequest::LoadPlaylist { name } => RequestView::LoadPlaylist(name@),
            MpdRequest::ListPlaylist { name } => RequestView::ListPlaylist(name@),
            MpdRequest::DeletePlaylist { name } => RequestView::DeletePlaylist(name@),
            MpdRequest::DeleteFromPlaylist { playlist, index } => RequestView::DeleteFromPlaylist(
                playlist@,
                *index as int,
            ),
            MpdRequest::MoveInPlaylist { playlist, from, to } => RequestView::MoveInPlaylist(
                playlist@,
                *from as int,
                *to as int,
            ),
            MpdRequest::MoveRangeInPlaylist { playlist, first, last, to } => RequestView::MoveRangeInPlaylist(
                playlist@,
                *first as int,
                *last as int,
                *to as int,
            ),
            MpdRequest::FindMatching { tag, value, kind } => RequestView::FindMatching(*tag, value@, *kind),
        }
    }
}

/// One filter, as a plain value.
pub open spec fn one_filter(tag: Tag, value: Seq<char>) -> Seq<(Tag, Seq<char>)> {
    seq![(tag, value)]
}

/// Two filters, as plain values.
pub open spec fn two_filters(t1: Tag, v1: Seq<char>, t2: Tag, v2: Seq<char>) -> Seq<
    (Tag, Seq<char>),
> {
    seq![(t1, v1), (t2, v2)]
}

/// A list of one filter.
pub fn filters1(tag: Tag, value: &str) -> (r: Vec<Filter>)
    ensures
        filters_view(r@) == one_filter(tag, value@),
{
    let r = vec![Filter::new(tag, value)];
    assert(filters_view(r@) =~= one_filter(tag, value@));
    r
}

/// A list of two filters, in order.
pub fn filters2(t1: Tag, v1: &str, t2: Tag, v2: &str) -> (r: Vec<Filter>)
    ensures
        filters_view(r@) == two_filters(t1, v1@, t2, v2@),
{
    let r = vec![Filter::new(t1, v1), Filter::new(t2, v2)];
    assert(filters_view(r@) =~= two_filters(t1, v1@, t2, v2@));
    r
}

/// A list of three filters, in order.
pub fn filters3(t1: Tag, v1: &str, t2: Tag, v2: &str, t3: Tag, v3: &str) -> (r: Vec<Filter>)
    ensures
        filters_view(r@) == seq![(t1, v1@), (t2, v2@), (t3, v3@)],
{
    let r = vec![Filter::new(t1, v1), Filter::new(t2, v2), Filter::new(t3, v3)];
    assert(filters_view(r@) =~= seq![(t1, v1@), (t2, v2@), (t3, v3@)]);
    r
}

/// An entry of a browsing screen: a directory (or a grouping such as an
/// album) or a song.
#[derive(PartialEq, Eq, Debug)]
pub enum DirOrSong {
    Dir(String),
    Song(String),
}

impl DirOrSong {
    /// The text of the entry.
    pub open spec fn text(&self) -> Seq<char> {
        match self {
            DirOrSong::Dir(d) => d@,
            DirOrSong::Song(s) => s@,
        }
    }

    /// The path the entry stands for: the directory or the song itself.
    pub fn as_path(&self) -> (r: &str)
        ensures
            r@ == self.text(),
    {
        match self {
            DirOrSong::Dir(d) => d.as_str(),
            DirOrSong::Song(s) => s.as_str(),
        }
    }

    /// A copy of the entry.
    pub fn duplicate(&self) -> (r: DirOrSong)
        ensures
            r.text() == self.text(),
            r is Dir <==> self is Dir,
    {
        match self {
            DirOrSong::Dir(d) => DirOrSong::Dir(d.clone()),
            DirOrSong::Song(s) => DirOrSong::Song(s.clone()),
        }
    }

    /// Whether the entry's text contains `filter`, ignoring case when asked.
    pub fn matches(&self, filter: &str, ignorecase: bool) -> (r: bool)
        ensures
            r == if ignorecase {
                contains_ignoring_case(self.text(), filter@)
            } else {
                contains_seq(self.text(), filter@)
            },
    {
        if ignorecase {
            contains_ignore_case(self.as_path(), filter)
        } else {
            str_contains(self.as_path(), filter)
        }
    }
}

/// `a` comes strictly before `b` in the order of code points, comparing
/// character by character, a proper prefix first.
pub open spec fn text_lt(a: Seq<char>, b: Seq<char>) -> bool
    decreases a.len(),
{
    if b.len() == 0 {
        false
    } else if a.len() == 0 {
        true
    } else if a[0] != b[0] {
        (a[0] as u32) < (b[0] as u32)
    } else {
        text_lt(a.drop_first(), b.drop_first())
    }
}

/// The order of entries: directories before songs, then by text.
pub open spec fn entry_lt(a: DirOrSong, b: DirOrSong) -> bool {
    match (a, b) {
        (DirOrSong::Dir(x), DirOrSong::Dir(y)) => text_lt(x@, y@),
        (DirOrSong::Song(x), DirOrSong::Song(y)) => text_lt(x@, y@),
        (DirOrSong::Dir(_), DirOrSong::Song(_)) => true,
        (DirOrSong::Song(_), DirOrSong::Dir(_)) => false,
    }
}

/// Whether `a` comes strictly before `b` in the order of code points.
pub fn text_less(a: &str, b: &str) -> (r: bool)
    ensures
        r == text_lt(a@, b@),
{
    let x = crate::text::to_chars(a);
    let y = crate::text::to_chars(b);
    let mut i: usize = 0;
    assert(a@.skip(0) =~= a@);
    assert(b@.skip(0) =~= b@);
    while i < x.len() && i < y.len() && x[i] == y[i]
        invariant
            x@ == a@,
            y@ == b@,
            i <= x@.len(),
            i <= y@.len(),
            text_lt(a@, b@) == text_lt(a@.skip(i as int), b@.skip(i as int)),
        decreases x@.len() - i,
    {
        assert(a@.skip(i as int).drop_first() =~= a@.skip(i + 1));
        assert(b@.skip(i as int).drop_first() =~= b@.skip(i + 1));
        i = i + 1;
    }
    if i == y.len() {
        false
    } else if i == x.len() {
        true
    } else {
        (x[i] as u32) < (y[i] as u32)
    }
}

/// Whether entry `a` comes strictly before entry `b`: directories first,
/// then by text.
pub fn entry_less(a: &DirOrSong, b: &DirOrSong) -> (r: bool)
    ensures
        r == entry_lt(*a, *b),
{
    match (a, b) {
        (DirOrSong::Dir(x), DirOrSong::Dir(y)) => text_less(x.as_str(), y.as_str()),
        (DirOrSong::Song(x), DirOrSong::Song(y)) => text_less(x.as_str(), y.as_str()),
        (DirOrSong::Dir(_), DirOrSong::Song(_)) => true,
        (DirOrSong::Song(_), DirOrSong::Dir(_)) => false,
    }
}

/// What a browsing screen does when the selected entry is opened.
pub enum BrowseStep {
    /// Nothing is selected, or the screen is nested deeper than it knows.
    Nothing,
    /// Descend: show what the request lists as the next column.
    Open(MpdRequest),
    /// Enqueue what the request names.
    Enqueue(MpdRequest),
}

/// The request is there and means `v`.
pub open spec fn requests(r: Option<MpdRequest>, v: RequestView) -> bool {
    r matches Some(q) && q@ == v
}

/// The step descends with a request that means `v`.
pub open spec fn opens(s: BrowseStep, v: RequestView) -> bool {
    s matches BrowseStep::Open(q) && q@ == v
}

/// The step enqueues with a request that means `v`.
pub open spec fn enqueues(s: BrowseStep, v: RequestView) -> bool {
    s matches BrowseStep::Enqueue(q) && q@ == v
}

/// Whether the filter typed into a browsing screen matches an entry.
pub open spec fn entry_matches(e: DirOrSong, filter: Seq<char>, ignorecase: bool) -> bool {
    if ignorecase {
        contains_ignoring_case(e.text(), filter)
    } else {
        contains_seq(e.text(), filter)
    }
}

/// The song accessors shared by the screens: a song's title and artist, or
/// a placeholder when the tag is missing.
pub trait SongExt {
    fn title_str(&self) -> String;

    fn artist_str(&self) -> String;
}

} // verus!
