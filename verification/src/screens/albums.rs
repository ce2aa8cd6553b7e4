//! The albums screen: albums, then the titles of the chosen album.
use vstd::prelude::*;

use super::{
    enqueues, filters1, filters2, opens, requests, two_filters, one_filter, BrowseStep,
    DirOrSong, MpdRequest, RequestView, Tag,
};

verus! {

/// The albums screen; `path` holds the album opened, if any.
pub struct AlbumsScreen {
    pub path: Vec<String>,
    pub filter_input_mode: bool,
}

/// The actions of the albums screen (there are none of its own, so no value
/// of the type exists).
pub type AlbumsActions = core::convert::Infallible;

/// The request that lists the titles of `album`.
pub fn list_titles(album: &str) -> (r: MpdRequest)
    ensures
        r@ == RequestView::ListTag(Tag::Title, one_filter(Tag::Album, album@)),
{
    MpdRequest::ListTag { tag: Tag::Title, filters: filters1(Tag::Album, album) }
}

/// The request that finds the songs titled `file` on `album`.
pub fn find_songs(album: &str, file: &str) -> (r: MpdRequest)
    ensures
        r@ == RequestView::Find(two_filters(Tag::Title, file@, Tag::Album, album@)),
{
    MpdRequest::Find { filters: filters2(Tag::Title, file, Tag::Album, album) }
}

impl AlbumsScreen {
    /// A screen at the list of albums.
    pub fn new() -> (r: AlbumsScreen)
        ensures
            r.path@.len() == 0,
            !r.filter_input_mode,
    {
        AlbumsScreen { path: Vec::new(), filter_input_mode: false }
    }

    /// The request that enqueues `item`: a whole album at the top, one
    /// title inside an album.
    pub fn add(&self, item: &DirOrSong) -> (r: Option<MpdRequest>)
        ensures
            self.path@.len() == 0 ==> requests(
                r,
                RequestView::FindAdd(one_filter(Tag::Album, item.text())),
            ),
            self.path@.len() == 1 ==> requests(
                r,
                RequestView::FindAdd(
                    two_filters(Tag::Title, item.text(), Tag::Album, self.path@[0]@),
                ),
            ),
            self.path@.len() > 1 ==> r is None,
    {
        if self.path.len() == 0 {
            Some(MpdRequest::FindAdd { filters: filters1(Tag::Album, item.as_path()) })
        } else if self.path.len() == 1 {
            Some(
                MpdRequest::FindAdd {
                    filters: filters2(Tag::Title, item.as_path(), Tag::Album, self.path[0].as_str()),
                },
            )
        } else {
            None
        }
    }

    /// What opening the selected entry does: at the top, list the album's
    /// titles; inside an album, enqueue the title.
    pub fn next(&self, selected: Option<&DirOrSong>) -> (r: BrowseStep)
        ensures
            match selected {
                None => r is Nothing,
                Some(item) => if self.path@.len() == 0 {
                    opens(r, RequestView::ListTag(Tag::Title, one_filter(Tag::Album, item.text())))
                } else if self.path@.len() == 1 {
                    enqueues(
                        r,
                        RequestView::FindAdd(
                            two_filters(Tag::Title, item.text(), Tag::Album, self.path@[0]@),
                        ),
                    )
                } else {
                    r is Nothing
                },
            },
    {
        match selected {
            None => BrowseStep::Nothing,
            Some(item) => {
                if self.path.len() == 0 {
                    BrowseStep::Open(list_titles(item.as_path()))
                } else if self.path.len() == 1 {
                    match self.add(item) {
                        Some(q) => BrowseStep::Enqueue(q),
                        None => BrowseStep::Nothing,
                    }
                } else {
                    BrowseStep::Nothing
                }
            },
        }
    }
}

impl AlbumsScreen {
    /// What the preview of the selected entry lists: inside an album the
    /// songs of that title, at the top the album's titles.
    pub fn preview(&self, selected: Option<&DirOrSong>) -> (r: Option<MpdRequest>)
        ensures
            match selected {
                None => r is None,
                Some(item) => if self.path@.len() == 1 {
                    requests(r, RequestView::Find(two_filters(Tag::Title, item.text(), Tag::Album, self.path@[0]@)))
                } else if self.path@.len() == 0 {
                    requests(r, RequestView::ListTag(Tag::Title, one_filter(Tag::Album, item.text())))
                } else {
                    r is None
                },
            },
    {
        match selected {
            None => None,
            Some(item) => {
                if self.path.len() == 1 {
                    Some(find_songs(self.path[0].as_str(), item.as_path()))
                } else if self.path.len() == 0 {
                    Some(list_titles(item.as_path()))
                } else {
                    None
                }
            },
        }
    }
}

} // verus!
