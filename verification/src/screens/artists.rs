//! The artists screen: artists, then their albums, then the album's songs.
use vstd::prelude::*;

use super::{
    enqueues, filters1, filters2, filters3, one_filter, opens, requests, two_filters, BrowseStep,
    DirOrSong, MpdRequest, RequestView, Tag,
};

verus! {

/// The artists screen; `path` holds the artist and album opened, if any.
pub struct ArtistsScreen {
    pub path: Vec<String>,
    pub filter_input_mode: bool,
}

/// The request that finds the songs of `album` by `artist`.
pub fn list_titles(artist: &str, album: &str) -> (r: MpdRequest)
    ensures
        r@ == RequestView::Find(two_filters(Tag::Artist, artist@, Tag::Album, album@)),
{
    MpdRequest::Find { filters: filters2(Tag::Artist, artist, Tag::Album, album) }
}

/// The request that lists the albums of `artist`.
pub fn list_albums(artist: &str) -> (r: MpdRequest)
    ensures
        r@ == RequestView::ListTag(Tag::Album, one_filter(Tag::Artist, artist@)),
{
    MpdRequest::ListTag { tag: Tag::Album, filters: filters1(Tag::Artist, artist) }
}

/// The request that finds the song `file` of `album` by `artist`.
pub fn find_songs(artist: &str, album: &str, file: &str) -> (r: MpdRequest)
    ensures
        r@ == RequestView::Find(seq![(Tag::File, file@), (Tag::Artist, artist@), (Tag::Album, album@)]),
{
    MpdRequest::Find { filters: filters3(Tag::File, file, Tag::Artist, artist, Tag::Album, album) }
}

impl ArtistsScreen {
    /// A screen at the list of artists.
    pub fn new() -> (r: ArtistsScreen)
        ensures
            r.path@.len() == 0,
            !r.filter_input_mode,
    {
        ArtistsScreen { path: Vec::new(), filter_input_mode: false }
    }

    /// The request that enqueues `item`: every song of an artist at the
    /// top, an album of the artist, or one song of the album.
    pub fn add(&self, item: &DirOrSong) -> (r: Option<MpdRequest>)
        ensures
            self.path@.len() == 0 ==> requests(
                r,
                RequestView::FindAdd(one_filter(Tag::Artist, item.text())),
            ),
            self.path@.len() == 1 ==> requests(
                r,
                RequestView::FindAdd(
                    two_filters(Tag::Artist, self.path@[0]@, Tag::Album, item.text()),
                ),
            ),
            self.path@.len() == 2 ==> requests(
                r,
                RequestView::FindAdd(
                    seq![
                        (Tag::Artist, self.path@[0]@),
                        (Tag::Album, self.path@[1]@),
                        (Tag::File, item.text()),
                    ],
                ),
            ),
            self.path@.len() > 2 ==> r is None,
    {
        let n = self.path.len();
        if n == 0 {
            Some(MpdRequest::FindAdd { filters: filters1(Tag::Artist, item.as_path()) })
        } else if n == 1 {
            Some(
                MpdRequest::FindAdd {
                    filters: filters2(Tag::Artist, self.path[0].as_str(), Tag::Album, item.as_path()),
                },
            )
        } else if n == 2 {
            Some(
                MpdRequest::FindAdd {
                    filters: filters3(
                        Tag::Artist,
                        self.path[0].as_str(),
                        Tag::Album,
                        self.path[1].as_str(),
                        Tag::File,
                        item.as_path(),
                    ),
                },
            )
        } else {
            None
        }
    }

    /// The request that enqueues everything the current column shows: the
    /// whole library at the top, an artist, or an album of the artist.
    pub fn add_all(&self) -> (r: Option<MpdRequest>)
        ensures
            self.path@.len() == 0 ==> requests(r, RequestView::Add("/"@)),
            self.path@.len() == 1 ==> requests(
                r,
                RequestView::FindAdd(one_filter(Tag::Artist, self.path@[0]@)),
            ),
            self.path@.len() == 2 ==> requests(
                r,
                RequestView::FindAdd(
                    two_filters(Tag::Artist, self.path@[0]@, Tag::Album, self.path@[1]@),
                ),
            ),
            self.path@.len() > 2 ==> r is None,
    {
        let n = self.path.len();
        if n == 0 {
            Some(MpdRequest::Add { path: String::from_str("/") })
        } else if n == 1 {
            Some(MpdRequest::FindAdd { filters: filters1(Tag::Artist, self.path[0].as_str()) })
        } else if n == 2 {
            Some(
                MpdRequest::FindAdd {
                    filters: filters2(
                        Tag::Artist,
                        self.path[0].as_str(),
                        Tag::Album,
                        self.path[1].as_str(),
                    ),
                },
            )
        } else {
            None
        }
    }

    /// What opening the selected entry does: list the artist's albums, list
    /// the album's songs, or enqueue the song.
    pub fn next(&self, selected: Option<&DirOrSong>) -> (r: BrowseStep)
        ensures
            match selected {
                None => r is Nothing,
                Some(item) => if self.path@.len() == 0 {
                    opens(r, RequestView::ListTag(Tag::Album, one_filter(Tag::Artist, item.text())))
                } else if self.path@.len() == 1 {
                    opens(
                        r,
                        RequestView::Find(
                            two_filters(Tag::Artist, self.path@[0]@, Tag::Album, item.text()),
                        ),
                    )
                } else if self.path@.len() == 2 {
                    enqueues(
                        r,
                        RequestView::FindAdd(
                            seq![
                                (Tag::Artist, self.path@[0]@),
                                (Tag::Album, self.path@[1]@),
                                (Tag::File, item.text()),
                            ],
                        ),
                    )
                } else {
                    r is Nothing
                },
            },
    {
        match selected {
            None => BrowseStep::Nothing,
            Some(item) => {
                let n = self.path.len();
                if n == 0 {
                    BrowseStep::Open(list_albums(item.as_path()))
                } else if n == 1 {
                    BrowseStep::Open(list_titles(self.path[0].as_str(), item.as_path()))
                } else if n == 2 {
                    match self.add(item) {
                        Some(q) => BrowseStep::Enqueue(q),
                        None => BrowseStep::Nothing,
                    }
                } else {
                    BrowseStep::Nothing
                }
            },
        }
    }
}

impl ArtistsScreen {
    /// What the preview of the selected entry lists: inside an album the
    /// song itself, inside an artist the album's songs, at the top the
    /// artist's albums.
    pub fn preview(&self, selected: Option<&DirOrSong>) -> (r: Option<MpdRequest>)
        ensures
            match selected {
                None => r is None,
                Some(item) => if self.path@.len() == 2 {
                    requests(r, RequestView::Find(seq![(Tag::File, item.text()), (Tag::Artist, self.path@[0]@), (Tag::Album, self.path@[1]@)]))
                } else if self.path@.len() == 1 {
                    requests(r, RequestView::Find(two_filters(Tag::Artist, self.path@[0]@, Tag::Album, item.text())))
                } else if self.path@.len() == 0 {
                    requests(r, RequestView::ListTag(Tag::Album, one_filter(Tag::Artist, item.text())))
                } else {
                    r is None
                },
            },
    {
        match selected {
            None => None,
            Some(item) => {
                let n = self.path.len();
                if n == 2 {
                    Some(find_songs(self.path[0].as_str(), self.path[1].as_str(), item.as_path()))
                } else if n == 1 {
                    Some(list_titles(self.path[0].as_str(), item.as_path()))
                } else if n == 0 {
                    Some(list_albums(item.as_path()))
                } else {
                    None
                }
            },
        }
    }
}

} // verus!
