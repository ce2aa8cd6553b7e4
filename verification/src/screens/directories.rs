//! The directories screen: the music directory, browsed one level at a
//! time.
use vstd::prelude::*;

use super::{enqueues, filters1, one_filter, opens, requests, BrowseStep, DirOrSong, MpdRequest, RequestView, Tag};
use crate::text::{join_strings, joined, views};

verus! {

/// The directories screen; `path` holds the directories opened, outermost
/// first.
pub struct DirectoriesScreen {
    pub path: Vec<String>,
    pub filter_input_mode: bool,
}

/// The path of `name` inside the directories of `path`, joined by `/`.
pub open spec fn path_of(path: Seq<String>, name: Seq<char>) -> Seq<char> {
    joined(views(path).push(name), "/"@)
}

impl DirectoriesScreen {
    /// A screen at the root of the music directory.
    pub fn new() -> (r: DirectoriesScreen)
        ensures
            r.path@.len() == 0,
            !r.filter_input_mode,
    {
        DirectoriesScreen { path: Vec::new(), filter_input_mode: false }
    }

    fn path_with(&self, name: &str) -> (r: String)
        ensures
            r@ == path_of(self.path@, name@),
    {
        let mut parts: Vec<String> = Vec::new();
        for i in 0..self.path.len()
            invariant
                parts@.len() == i,
                i <= self.path@.len(),
                forall|j: int| 0 <= j < i ==> #[trigger] parts@[j]@ == self.path@[j]@,
        {
            parts.push(self.path[i].clone());
        }
        parts.push(name.to_string());
        let r = join_strings(&parts, "/");
        assert(views(parts@) =~= views(self.path@).push(name@));
        r
    }

    /// The request that enqueues `item`: a directory by its full path, a
    /// song by its file.
    pub fn add(&self, item: &DirOrSong) -> (r: MpdRequest)
        ensures
            match item {
                DirOrSong::Dir(d) => r@ == RequestView::Add(path_of(self.path@, d@)),
                DirOrSong::Song(f) => r@ == RequestView::Add(f@),
            },
    {
        match item {
            DirOrSong::Dir(d) => MpdRequest::Add { path: self.path_with(d.as_str()) },
            DirOrSong::Song(f) => MpdRequest::Add { path: f.clone() },
        }
    }

    /// What opening the selected entry does: list the directory's contents,
    /// or enqueue the song.
    pub fn next(&self, selected: Option<&DirOrSong>) -> (r: BrowseStep)
        ensures
            match selected {
                None => r is Nothing,
                Some(DirOrSong::Dir(d)) => opens(r, RequestView::LsInfo(path_of(self.path@, d@))),
                Some(DirOrSong::Song(f)) => enqueues(r, RequestView::Add(f@)),
            },
    {
        match selected {
            None => BrowseStep::Nothing,
            Some(DirOrSong::Dir(d)) => BrowseStep::Open(
                MpdRequest::LsInfo { path: self.path_with(d.as_str()) },
            ),
            Some(item) => BrowseStep::Enqueue(self.add(item)),
        }
    }
}

impl DirectoriesScreen {
    /// What the preview of the selected entry lists: a directory's
    /// contents, or the song found by its file.
    pub fn preview(&self, selected: Option<&DirOrSong>) -> (r: Option<MpdRequest>)
        ensures
            match selected {
                None => r is None,
                Some(DirOrSong::Dir(d)) => requests(r, RequestView::LsInfo(path_of(self.path@, d@))),
                Some(DirOrSong::Song(f)) => requests(r, RequestView::Find(one_filter(Tag::File, f@))),
            },
    {
        match selected {
            None => None,
            Some(DirOrSong::Dir(d)) => Some(MpdRequest::LsInfo { path: self.path_with(d.as_str()) }),
            Some(DirOrSong::Song(f)) => Some(MpdRequest::Find { filters: filters1(Tag::File, f.as_str()) }),
        }
    }
}

} // verus!
