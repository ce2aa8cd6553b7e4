//! The queue screen's keys: its own actions on the song under the cursor,
//! the navigation keys, and typing a filter over the queue.
use vstd::prelude::*;

use super::search::{KeyCode, KeyResult, ListMove};
use super::CommonAction;
use crate::song::Song;
use crate::text::{chars_to_string, to_chars};

verus! {

/// The queue screen's own actions.
#[derive(Clone, Copy, PartialEq, Eq, Structural, Debug)]
pub enum QueueScreenAction {
    Delete,
    DeleteAll,
    Play,
    Save,
    AddToPlaylist,
}

/// A key on the queue screen: the queue action and the navigation action
/// bound to it, whether it runs an external command, and what it types.
pub struct QueueKey {
    pub queue_action: Option<QueueScreenAction>,
    pub action: Option<CommonAction>,
    pub external_command: bool,
    pub code: KeyCode,
}

/// What the caller does for the queue screen.
pub enum QueueScreenEffect {
    Nothing,
    /// Delete the song with this id from the queue.
    DeleteSong(u32),
    /// Tell that no song is selected.
    NoSongSelected,
    /// Ask whether to clear the queue.
    ConfirmClear,
    /// Play the song with this id.
    PlaySong(u32),
    /// Ask for a name to save the queue as.
    SaveQueue,
    /// Ask which playlist to add this file to.
    AddToPlaylist(String),
    /// Move the song with `id` to position `to`, and put the cursor there.
    MoveSong { id: u32, to: usize },
    /// Move the cursor.
    List(ListMove),
    /// Jump to the next song matching the filter.
    JumpForward,
    /// Jump to the previous song matching the filter.
    JumpBack,
    /// Run the external command with the file under the cursor.
    ExternalCommand(Option<String>),
}

/// The queue screen's state: the filter typed over the queue and whether
/// it is being typed.
pub struct QueueScreen {
    pub filter: Option<String>,
    pub filter_input_mode: bool,
}

/// The song under the cursor, if the cursor is on a song of the queue.
pub open spec fn selected_song(queue: Seq<Song>, selected: Option<usize>) -> Option<Song> {
    match selected {
        Some(i) => if i < queue.len() {
            Some(queue[i as int])
        } else {
            None
        },
        None => None,
    }
}

/// The cursor movements that keep the cursor where it is in an empty queue.
pub open spec fn queue_move_of(a: CommonAction) -> Option<ListMove> {
    match a {
        CommonAction::Up => Some(ListMove::Prev),
        CommonAction::Down => Some(ListMove::Next),
        CommonAction::DownHalf => Some(ListMove::NextHalf),
        CommonAction::UpHalf => Some(ListMove::PrevHalf),
        CommonAction::Bottom => Some(ListMove::Last),
        CommonAction::Top => Some(ListMove::First),
        _ => None,
    }
}

/// The filter as plain text.
pub open spec fn filter_view(f: Option<String>) -> Option<Seq<char>> {
    match f {
        Some(s) => Some(s@),
        None => None,
    }
}

fn edited(s: &String, c: Option<char>) -> (r: String)
    ensures
        r@ == match c {
            Some(ch) => s@.push(ch),
            None => if s@.len() > 0 {
                s@.drop_last()
            } else {
                s@
            },
        },
{
    let mut chars = to_chars(s.as_str());
    match c {
        Some(ch) => chars.push(ch),
        None => {
            if chars.len() > 0 {
                chars.pop();
            }
        },
    }
    chars_to_string(chars.as_slice())
}

impl QueueScreen {
    /// A screen with no filter.
    pub fn new() -> (r: QueueScreen)
        ensures
            r.filter is None,
            !r.filter_input_mode,
    {
        QueueScreen { filter: None, filter_input_mode: false }
    }

    /// Handles a key; `queue` is the queue and `selected` the row under
    /// the cursor. While the filter is typed, keys edit it; otherwise the
    /// queue's own actions come first, then navigation, then external
    /// commands.
    pub fn handle_key(&mut self, key: QueueKey, queue: &Vec<Song>, selected: Option<usize>) -> (r: (KeyResult, QueueScreenEffect))
        ensures
            old(self).filter_input_mode ==> {
                if key.action == Some(CommonAction::Confirm) {
                    &&& !final(self).filter_input_mode && final(self).filter == old(self).filter
                    &&& r.0 == KeyResult::Render && r.1 is JumpForward
                } else if key.action == Some(CommonAction::Close) {
                    &&& !final(self).filter_input_mode && final(self).filter is None
                    &&& r.0 == KeyResult::Render && r.1 is Nothing
                } else {
                    &&& final(self).filter_input_mode
                    &&& r.1 is Nothing
                    &&& match key.code {
                        KeyCode::Char(c) => r.0 == KeyResult::Render && filter_view(final(self).filter) == match old(self).filter {
                            Some(f) => Some(f@.push(c)),
                            None => None,
                        },
                        KeyCode::Backspace => r.0 == KeyResult::Render && filter_view(final(self).filter) == match old(self).filter {
                            Some(f) => Some(if f@.len() > 0 {
                                f@.drop_last()
                            } else {
                                f@
                            }),
                            None => None,
                        },
                        _ => r.0 == KeyResult::SkipRender && final(self).filter == old(self).filter,
                    }
                }
            },
            !old(self).filter_input_mode ==> {
                let song = selected_song(queue@, selected);
                match key.queue_action {
                    Some(QueueScreenAction::Delete) => *final(self) == *old(self) && r.0 == KeyResult::SkipRender && match song {
                        Some(s) => r.1 == QueueScreenEffect::DeleteSong(s.id),
                        None => r.1 is NoSongSelected,
                    },
                    Some(QueueScreenAction::DeleteAll) => *final(self) == *old(self) && r.0 == KeyResult::Modal && r.1 is ConfirmClear,
                    Some(QueueScreenAction::Play) => *final(self) == *old(self) && r.0 == KeyResult::SkipRender && match song {
                        Some(s) => r.1 == QueueScreenEffect::PlaySong(s.id),
                        None => r.1 is Nothing,
                    },
                    Some(QueueScreenAction::Save) => *final(self) == *old(self) && r.0 == KeyResult::Modal && r.1 is SaveQueue,
                    Some(QueueScreenAction::AddToPlaylist) => *final(self) == *old(self) && match song {
                        Some(s) => r.0 == KeyResult::Modal && (r.1 matches QueueScreenEffect::AddToPlaylist(f) && f@ == s.file@),
                        None => r.0 == KeyResult::SkipRender && r.1 is Nothing,
                    },
                    None => match key.action {
                        Some(a) => match queue_move_of(a) {
                            Some(m) => *final(self) == *old(self) && r.0 == KeyResult::Render && if queue@.len() > 0 {
                                r.1 == QueueScreenEffect::List(m)
                            } else {
                                r.1 is Nothing
                            },
                            None => match a {
                                CommonAction::MoveUp | CommonAction::MoveDown => *final(self) == *old(self) && r.0 == KeyResult::SkipRender
                                    && match (song, selected) {
                                    (Some(s), Some(i)) => r.1 == QueueScreenEffect::MoveSong {
                                        id: s.id,
                                        to: if a == CommonAction::MoveUp {
                                            if i > 0 { (i - 1) as usize } else { 0 }
                                        } else {
                                            if i + 1 < queue@.len() { (i + 1) as usize } else { (queue@.len() - 1) as usize }
                                        },
                                    },
                                    _ => r.1 is Nothing,
                                },
                                CommonAction::EnterSearch => final(self).filter_input_mode && filter_view(final(self).filter) == Some(Seq::<char>::empty())
                                    && r.0 == KeyResult::Render && r.1 is Nothing,
                                CommonAction::NextResult => *final(self) == *old(self) && r.0 == KeyResult::Render && r.1 is JumpForward,
                                CommonAction::PreviousResult => *final(self) == *old(self) && r.0 == KeyResult::Render && r.1 is JumpBack,
                                _ => *final(self) == *old(self) && r.0 == KeyResult::SkipRender && r.1 is Nothing,
                            },
                        },
                        None => *final(self) == *old(self) && if key.external_command {
                            r.0 == KeyResult::SkipRender && match song {
                                Some(s) => r.1 matches QueueScreenEffect::ExternalCommand(f) && (f matches Some(x) && x@ == s.file@),
                                None => r.1 matches QueueScreenEffect::ExternalCommand(f) && f is None,
                            }
                        } else {
                            r.0 == KeyResult::NotHandled && r.1 is Nothing
                        },
                    },
                }
            },
    {
        if self.filter_input_mode {
            if key.action == Some(CommonAction::Confirm) {
                self.filter_input_mode = false;
                return (KeyResult::Render, QueueScreenEffect::JumpForward);
            }
            if key.action == Some(CommonAction::Close) {
                self.filter_input_mode = false;
                self.filter = None;
                return (KeyResult::Render, QueueScreenEffect::Nothing);
            }
            return match key.code {
                KeyCode::Char(c) => {
                    let next = match &self.filter {
                        Some(f) => Some(edited(f, Some(c))),
                        None => None,
                    };
                    self.filter = next;
                    (KeyResult::Render, QueueScreenEffect::Nothing)
                },
                KeyCode::Backspace => {
                    let next = match &self.filter {
                        Some(f) => Some(edited(f, None)),
                        None => None,
                    };
                    self.filter = next;
                    (KeyResult::Render, QueueScreenEffect::Nothing)
                },
                _ => (KeyResult::SkipRender, QueueScreenEffect::Nothing),
            };
        }
        let song: Option<&Song> = match selected {
            Some(i) => if i < queue.len() {
                Some(&queue[i])
            } else {
                None
            },
            None => None,
        };
        match key.queue_action {
            Some(QueueScreenAction::Delete) => (
                KeyResult::SkipRender,
                match song {
                    Some(s) => QueueScreenEffect::DeleteSong(s.id),
                    None => QueueScreenEffect::NoSongSelected,
                },
            ),
            Some(QueueScreenAction::DeleteAll) => (KeyResult::Modal, QueueScreenEffect::ConfirmClear),
            Some(QueueScreenAction::Play) => (
                KeyResult::SkipRender,
                match song {
                    Some(s) => QueueScreenEffect::PlaySong(s.id),
                    None => QueueScreenEffect::Nothing,
                },
            ),
            Some(QueueScreenAction::Save) => (KeyResult::Modal, QueueScreenEffect::SaveQueue),
            Some(QueueScreenAction::AddToPlaylist) => match song {
                Some(s) => (KeyResult::Modal, QueueScreenEffect::AddToPlaylist(s.file.clone())),
                None => (KeyResult::SkipRender, QueueScreenEffect::Nothing),
            },
            None => match key.action {
                Some(a) => {
                    let mv = match a {
                        CommonAction::Up => Some(ListMove::Prev),
                        CommonAction::Down => Some(ListMove::Next),
                        CommonAction::DownHalf => Some(ListMove::NextHalf),
                        CommonAction::UpHalf => Some(ListMove::PrevHalf),
                        CommonAction::Bottom => Some(ListMove::Last),
                        CommonAction::Top => Some(ListMove::First),
                        _ => None,
                    };
                    match mv {
                        Some(m) => (
                            KeyResult::Render,
                            if queue.len() > 0 {
                                QueueScreenEffect::List(m)
                            } else {
                                QueueScreenEffect::Nothing
                            },
                        ),
                        None => match a {
                            CommonAction::MoveUp | CommonAction::MoveDown => match (song, selected) {
                                (Some(s), Some(i)) => {
                                    let to = if a == CommonAction::MoveUp {
                                        if i > 0 {
                                            i - 1
                                        } else {
                                            0
                                        }
                                    } else {
                                        if i + 1 < queue.len() {
                                            i + 1
                                        } else {
                                            queue.len() - 1
                                        }
                                    };
                                    (KeyResult::SkipRender, QueueScreenEffect::MoveSong { id: s.id, to })
                                },
                                _ => (KeyResult::SkipRender, QueueScreenEffect::Nothing),
                            },
                            CommonAction::EnterSearch => {
                                self.filter_input_mode = true;
                                self.filter = Some(String::new());
                                (KeyResult::Render, QueueScreenEffect::Nothing)
                            },
                            CommonAction::NextResult => (KeyResult::Render, QueueScreenEffect::JumpForward),
                            CommonAction::PreviousResult => (KeyResult::Render, QueueScreenEffect::JumpBack),
                            _ => (KeyResult::SkipRender, QueueScreenEffect::Nothing),
                        },
                    }
                },
                None => {
                    if key.external_command {
                        (
                            KeyResult::SkipRender,
                            QueueScreenEffect::ExternalCommand(
                                match song {
                                    Some(s) => Some(s.file.clone()),
                                    None => None,
                                },
                            ),
                        )
                    } else {
                        (KeyResult::NotHandled, QueueScreenEffect::Nothing)
                    }
                },
            },
        }
    }
}

} // verus!
