//! The playlists screen: stored playlists, then the songs of one.
use vstd::prelude::*;

use super::{enqueues, filters1, one_filter, opens, requests, BrowseStep, DirOrSong, MpdRequest, RequestView, Tag};

verus! {

/// The playlists screen; `path` holds the playlist opened, if any.
pub struct PlaylistsScreen {
    pub path: Vec<String>,
    pub filter_input_mode: bool,
}

/// The actions of the playlists screen (there are none of its own, so no value
/// of the type exists).
pub type PlaylistsActions = core::convert::Infallible;

/// Which way a song moves in its playlist.
#[derive(Clone, Copy, PartialEq, Eq, Structural, Debug)]
pub enum MoveDirection {
    Up,
    Down,
}

impl PlaylistsScreen {
    /// A screen at the list of playlists.
    pub fn new() -> (r: PlaylistsScreen)
        ensures
            r.path@.len() == 0,
            !r.filter_input_mode,
    {
        PlaylistsScreen { path: Vec::new(), filter_input_mode: false }
    }

    /// The request that enqueues `item`: a whole playlist, or one song.
    pub fn add(&self, item: &DirOrSong) -> (r: MpdRequest)
        ensures
            match item {
                DirOrSong::Dir(d) => r@ == RequestView::LoadPlaylist(d@),
                DirOrSong::Song(f) => r@ == RequestView::Add(f@),
            },
    {
        match item {
            DirOrSong::Dir(d) => MpdRequest::LoadPlaylist { name: d.clone() },
            DirOrSong::Song(f) => MpdRequest::Add { path: f.clone() },
        }
    }

    /// The request that deletes `item` at `index`: a whole playlist, or the
    /// song from the playlist it is listed in (`playlist`, the entry
    /// selected in the previous column).
    pub fn delete(&self, item: &DirOrSong, index: usize, playlist: Option<&DirOrSong>) -> (r:
        Option<MpdRequest>)
        ensures
            match item {
                DirOrSong::Dir(d) => r matches Some(q) && q@ == RequestView::DeletePlaylist(d@),
                DirOrSong::Song(_) => match playlist {
                    Some(DirOrSong::Dir(p)) => r matches Some(q) && q@
                        == RequestView::DeleteFromPlaylist(p@, index as int),
                    _ => r is None,
                },
            },
    {
        match item {
            DirOrSong::Dir(d) => Some(MpdRequest::DeletePlaylist { name: d.clone() }),
            DirOrSong::Song(_) => match playlist {
                Some(DirOrSong::Dir(p)) => Some(
                    MpdRequest::DeleteFromPlaylist { playlist: p.clone(), index },
                ),
                _ => None,
            },
        }
    }

    /// What opening the selected entry does: list the playlist's songs, or
    /// enqueue the song.
    pub fn next(&self, selected: Option<&DirOrSong>) -> (r: BrowseStep)
        ensures
            match selected {
                None => r is Nothing,
                Some(DirOrSong::Dir(d)) => opens(r, RequestView::ListPlaylist(d@)),
                Some(DirOrSong::Song(f)) => enqueues(r, RequestView::Add(f@)),
            },
    {
        match selected {
            None => BrowseStep::Nothing,
            Some(DirOrSong::Dir(d)) => BrowseStep::Open(MpdRequest::ListPlaylist { name: d.clone() }),
            Some(item) => BrowseStep::Enqueue(self.add(item)),
        }
    }

    /// The request that moves the selected song (at `idx` of a column of
    /// `len` entries) of `playlist` one place up or down, staying inside
    /// the column; nothing for a playlist entry.
    pub fn move_selected(
        &self,
        selected: &DirOrSong,
        idx: usize,
        len: usize,
        playlist: &str,
        direction: MoveDirection,
    ) -> (r: Option<MpdRequest>)
        requires
            idx < len,
        ensures
            match selected {
                DirOrSong::Dir(_) => r is None,
                DirOrSong::Song(_) => r matches Some(q) && q@ == RequestView::MoveInPlaylist(
                    playlist@,
                    idx as int,
                    match direction {
                        MoveDirection::Up => if idx == 0 {
                            0
                        } else {
                            idx - 1
                        },
                        MoveDirection::Down => if idx + 1 < len {
                            idx + 1
                        } else {
                            len - 1
                        },
                    },
                ),
            },
    {
        match selected {
            DirOrSong::Dir(_) => None,
            DirOrSong::Song(_) => {
                let new_idx = match direction {
                    MoveDirection::Up => if idx == 0 {
                        0
                    } else {
                        idx - 1
                    },
                    MoveDirection::Down => if idx + 1 < len {
                        idx + 1
                    } else {
                        len - 1
                    },
                };
                Some(
                    MpdRequest::MoveInPlaylist {
                        playlist: playlist.to_string(),
                        from: idx,
                        to: new_idx,
                    },
                )
            },
        }
    }
}

impl PlaylistsScreen {
    /// What the preview of the selected entry lists: a playlist's songs, or
    /// the song found by its file.
    pub fn preview(&self, selected: Option<&DirOrSong>) -> (r: Option<MpdRequest>)
        ensures
            match selected {
                None => r is None,
                Some(DirOrSong::Dir(d)) => requests(r, RequestView::ListPlaylist(d@)),
                Some(DirOrSong::Song(f)) => requests(r, RequestView::Find(one_filter(Tag::File, f@))),
            },
    {
        match selected {
            None => None,
            Some(DirOrSong::Dir(d)) => Some(MpdRequest::ListPlaylist { name: d.clone() }),
            Some(DirOrSong::Song(f)) => Some(MpdRequest::Find { filters: filters1(Tag::File, f.as_str()) }),
        }
    }
}

} // verus!
