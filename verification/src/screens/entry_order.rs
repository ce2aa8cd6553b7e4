//! The order of the entries of a browsing column: directories first, then
//! songs, each kind by its text.
use vstd::prelude::*;

use std::cmp::Ordering;

use crate::screens::browser::DirOrSongInfo;
use crate::screens::DirOrSong;
use crate::text::to_chars;

verus! {

/// The order of two texts, character by character: negative when `a` comes
/// first, zero when they are equal, positive when `b` comes first; a text
/// comes before the longer texts it begins.
pub open spec fn text_order(a: Seq<char>, b: Seq<char>) -> int
    decreases a.len(),
{
    if a.len() == 0 {
        if b.len() == 0 {
            0
        } else {
            -1
        }
    } else if b.len() == 0 {
        1
    } else if a[0] < b[0] {
        -1
    } else if b[0] < a[0] {
        1
    } else {
        text_order(a.drop_first(), b.drop_first())
    }
}

/// The order of two optional texts: a missing one comes first.
pub open spec fn optional_text_order(a: Option<Seq<char>>, b: Option<Seq<char>>) -> int {
    match (a, b) {
        (None, None) => 0,
        (None, Some(_)) => -1,
        (Some(_), None) => 1,
        (Some(x), Some(y)) => text_order(x, y),
    }
}

/// The `Ordering` that an order given as a sign stands for.
pub open spec fn ordering_of(sign: int) -> Ordering {
    if sign < 0 {
        Ordering::Less
    } else if sign == 0 {
        Ordering::Equal
    } else {
        Ordering::Greater
    }
}

proof fn lemma_text_order_suffix(a: Seq<char>, b: Seq<char>, i: int)
    requires
        0 <= i <= a.len(),
        i <= b.len(),
        a.subrange(0, i) == b.subrange(0, i),
    ensures
        text_order(a, b) == text_order(a.subrange(i, a.len() as int), b.subrange(i, b.len() as int)),
    decreases i,
{
    if i > 0 {
        assert(a[0] == a.subrange(0, i)[0]);
        assert(b[0] == b.subrange(0, i)[0]);
        let a1 = a.drop_first();
        let b1 = b.drop_first();
        assert(a1.subrange(0, i - 1) =~= a.subrange(0, i).drop_first());
        assert(b1.subrange(0, i - 1) =~= b.subrange(0, i).drop_first());
        lemma_text_order_suffix(a1, b1, i - 1);
        assert(a1.subrange(i - 1, a1.len() as int) =~= a.subrange(i, a.len() as int));
        assert(b1.subrange(i - 1, b1.len() as int) =~= b.subrange(i, b.len() as int));
    } else {
        assert(a.subrange(0, a.len() as int) =~= a);
        assert(b.subrange(0, b.len() as int) =~= b);
    }
}

/// The order of two texts as a sign: -1, 0 or 1.
pub fn text_sign(a: &str, b: &str) -> (r: i8)
    ensures
        r == text_order(a@, b@),
{
    let x = to_chars(a);
    let y = to_chars(b);
    let mut i: usize = 0;
    while i < x.len() && i < y.len() && x[i] == y[i]
        invariant
            i <= x@.len(),
            i <= y@.len(),
            x@.subrange(0, i as int) == y@.subrange(0, i as int),
        decreases x@.len() - i,
    {
        assert(x@.subrange(0, i + 1) =~= x@.subrange(0, i as int).push(x@[i as int]));
        assert(y@.subrange(0, i + 1) =~= y@.subrange(0, i as int).push(y@[i as int]));
        i = i + 1;
    }
    proof {
        lemma_text_order_suffix(x@, y@, i as int);
        let xs = x@.subrange(i as int, x@.len() as int);
        let ys = y@.subrange(i as int, y@.len() as int);
        if i < x@.len() {
            assert(xs[0] == x@[i as int]);
        }
        if i < y@.len() {
            assert(ys[0] == y@[i as int]);
        }
    }
    if i == x.len() {
        if i == y.len() {
            0
        } else {
            -1
        }
    } else if i == y.len() {
        1
    } else if x[i] < y[i] {
        -1
    } else {
        1
    }
}

/// The order of two texts.
pub fn text_ordering(a: &str, b: &str) -> (r: Ordering)
    ensures
        r == ordering_of(text_order(a@, b@)),
{
    let sign = text_sign(a, b);
    if sign < 0 {
        Ordering::Less
    } else if sign == 0 {
        Ordering::Equal
    } else {
        Ordering::Greater
    }
}

impl DirOrSong {
    /// The order of two entries: directories before songs, entries of one
    /// kind by their text.
    pub open spec fn order(&self, other: &Self) -> int {
        match (self, other) {
            (DirOrSong::Dir(a), DirOrSong::Dir(b)) => text_order(a@, b@),
            (_, DirOrSong::Dir(_)) => 1,
            (DirOrSong::Dir(_), _) => -1,
            (DirOrSong::Song(a), DirOrSong::Song(b)) => text_order(a@, b@),
        }
    }

    /// Compares two entries.
    pub fn cmp(&self, other: &Self) -> (r: Ordering)
        ensures
            r == ordering_of(self.order(other)),
    {
        match (self, other) {
            (DirOrSong::Dir(a), DirOrSong::Dir(b)) => text_ordering(a.as_str(), b.as_str()),
            (_, DirOrSong::Dir(_)) => Ordering::Greater,
            (DirOrSong::Dir(_), _) => Ordering::Less,
            (DirOrSong::Song(a), DirOrSong::Song(b)) => text_ordering(a.as_str(), b.as_str()),
        }
    }
}

/// The view of an optional text.
pub open spec fn opt_view(v: Option<String>) -> Option<Seq<char>> {
    match v {
        Some(s) => Some(s@),
        None => None,
    }
}

impl DirOrSongInfo {
    /// The order of two entries: directories before songs, directories by
    /// their text, songs by their titles, a song without one first.
    pub open spec fn order(&self, other: &Self) -> int {
        match (self, other) {
            (DirOrSongInfo::Dir(a), DirOrSongInfo::Dir(b)) => text_order(a@, b@),
            (_, DirOrSongInfo::Dir(_)) => 1,
            (DirOrSongInfo::Dir(_), _) => -1,
            (DirOrSongInfo::Song(a), DirOrSongInfo::Song(b)) => optional_text_order(opt_view(a.title), opt_view(b.title)),
        }
    }

    /// Compares two entries.
    pub fn cmp(&self, other: &Self) -> (r: Ordering)
        ensures
            r == ordering_of(self.order(other)),
    {
        match (self, other) {
            (DirOrSongInfo::Dir(a), DirOrSongInfo::Dir(b)) => text_ordering(a.as_str(), b.as_str()),
            (_, DirOrSongInfo::Dir(_)) => Ordering::Greater,
            (DirOrSongInfo::Dir(_), _) => Ordering::Less,
            (DirOrSongInfo::Song(a), DirOrSongInfo::Song(b)) => match (&a.title, &b.title) {
                (None, None) => Ordering::Equal,
                (None, Some(_)) => Ordering::Less,
                (Some(_), None) => Ordering::Greater,
                (Some(x), Some(y)) => text_ordering(x.as_str(), y.as_str()),
            },
        }
    }
}

} // verus!
