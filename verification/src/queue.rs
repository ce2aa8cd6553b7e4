//! The queue pane's own state (the songs, the marked rows, the selected
//! row) and what its actions do to it: moving marked blocks of songs,
//! deleting or shuffling them, and the commands the player daemon gets.
use vstd::prelude::*;

use crate::song::Song;
use crate::text::views;

verus! {

/// The indices grow strictly from first to last.
pub open spec fn strictly_increasing(s: Seq<usize>) -> bool {
    forall|i: int, j: int| 0 <= i < j < s.len() ==> s[i] < s[j]
}

/// `x` lies in one of the inclusive ranges.
pub open spec fn in_ranges(r: Seq<(usize, usize)>, x: int) -> bool {
    exists|k: int| 0 <= k < r.len() && #[trigger] r[k].0 <= x && x <= r[k].1
}

/// Each range is non-empty, and the ranges come in order with a gap of at
/// least one index between neighbours.
pub open spec fn separated_ranges(r: Seq<(usize, usize)>) -> bool {
    &&& forall|k: int| 0 <= k < r.len() ==> #[trigger] r[k].0 <= r[k].1
    &&& forall|k: int, l: int| 0 <= k < l < r.len() ==> #[trigger] r[k].1 + 1 < #[trigger] r[l].0
}

/// The runs of consecutive indices of `m`, as inclusive ranges, built from
/// the first index to the last.
pub open spec fn runs(m: Seq<usize>) -> Seq<(usize, usize)>
    decreases m.len(),
{
    if m.len() == 0 {
        Seq::empty()
    } else {
        let r = runs(m.drop_last());
        if r.len() > 0 && r.last().1 + 1 == m.last() {
            r.update(r.len() - 1, (r.last().0, m.last()))
        } else {
            r.push((m.last(), m.last()))
        }
    }
}

/// The runs of consecutive indices of `marked` (sorted, no repeats), as
/// inclusive ranges in increasing order.
pub fn marked_ranges(marked: &Vec<usize>) -> (r: Vec<(usize, usize)>)
    requires
        strictly_increasing(marked@),
    ensures
        separated_ranges(r@),
        forall|x: int| marked@.contains(x as usize) && 0 <= x <= usize::MAX <==> in_ranges(r@, x),
        forall|k: int|
            0 <= k < r@.len() ==> marked@.contains(#[trigger] r@[k].0) && marked@.contains(r@[k].1),
        r@.len() == 0 <==> marked@.len() == 0,
        r@ == runs(marked@),
{
    let mut r: Vec<(usize, usize)> = Vec::new();
    let n = marked.len();
    for i in 0..n
        invariant
            n == marked@.len(),
            strictly_increasing(marked@),
            separated_ranges(r@),
            i > 0 ==> r@.len() > 0 && r@.last().1 == marked@[i - 1],
            i == 0 ==> r@.len() == 0,
            r@.len() <= i,
            r@ == runs(marked@.take(i as int)),
            forall|x: int|
                (exists|j: int| 0 <= j < i && #[trigger] marked@[j] == x) <==> in_ranges(r@, x),
    {
        let m = marked[i];
        let ghost old_r = r@;
        assert(marked@.take(i + 1).drop_last() =~= marked@.take(i as int));
        let len = r.len();
        if len > 0 && r[len - 1].1 + 1 == m {
            let s = r[len - 1].0;
            r.set(len - 1, (s, m));
            proof {
                assert forall|x: int|
                    (exists|j: int| 0 <= j < i + 1 && #[trigger] marked@[j] == x) <==> in_ranges(
                        r@,
                        x,
                    ) by {
                    if exists|j: int| 0 <= j < i + 1 && #[trigger] marked@[j] == x {
                        let j = choose|j: int| 0 <= j < i + 1 && #[trigger] marked@[j] == x;
                        if j < i {
                            assert(in_ranges(old_r, x));
                            let k = choose|k: int|
                                0 <= k < old_r.len() && #[trigger] old_r[k].0 <= x && x
                                    <= old_r[k].1;
                            assert(r@[k].0 <= x && x <= r@[k].1);
                        } else {
                            assert(r@[len - 1].0 <= x && x <= r@[len - 1].1);
                        }
                    }
                    if in_ranges(r@, x) {
                        let k = choose|k: int|
                            0 <= k < r@.len() && #[trigger] r@[k].0 <= x && x <= r@[k].1;
                        if x == m {
                            assert(marked@[i as int] == x);
                        } else {
                            assert(old_r[k].0 <= x && x <= old_r[k].1);
                            assert(in_ranges(old_r, x));
                        }
                    }
                }
            }
        } else {
            r.push((m, m));
            proof {
                if len > 0 {
                    assert(old_r.last().1 == marked@[i - 1]);
                    assert(marked@[i - 1] < m);
                }
                assert forall|k: int, l: int| 0 <= k < l < r@.len() implies #[trigger] r@[k].1 + 1
                    < #[trigger] r@[l].0 by {
                    if l == len {
                        if k < len - 1 {
                            assert(old_r[k].1 + 1 < old_r[len - 1].0);
                            assert(old_r[len - 1].0 <= old_r[len - 1].1);
                        }
                        assert(old_r[k].1 <= old_r.last().1);
                    }
                }
                assert forall|x: int|
                    (exists|j: int| 0 <= j < i + 1 && #[trigger] marked@[j] == x) <==> in_ranges(
                        r@,
                        x,
                    ) by {
                    if exists|j: int| 0 <= j < i + 1 && #[trigger] marked@[j] == x {
                        let j = choose|j: int| 0 <= j < i + 1 && #[trigger] marked@[j] == x;
                        if j < i {
                            assert(in_ranges(old_r, x));
                            let k = choose|k: int|
                                0 <= k < old_r.len() && #[trigger] old_r[k].0 <= x && x
                                    <= old_r[k].1;
                            assert(r@[k].0 <= x && x <= r@[k].1);
                        } else {
                            assert(r@[len as int].0 <= x && x <= r@[len as int].1);
                        }
                    }
                    if in_ranges(r@, x) {
                        let k = choose|k: int|
                            0 <= k < r@.len() && #[trigger] r@[k].0 <= x && x <= r@[k].1;
                        if k == len {
                            assert(marked@[i as int] == x);
                        } else {
                            assert(old_r[k].0 <= x && x <= old_r[k].1);
                            assert(in_ranges(old_r, x));
                        }
                    }
                }
            }
        }
    }
    proof {
        assert(marked@.take(n as int) =~= marked@);
        assert forall|k: int| 0 <= k < r@.len() implies marked@.contains(#[trigger] r@[k].0)
            && marked@.contains(r@[k].1) by {
            let a = r@[k].0 as int;
            let b = r@[k].1 as int;
            assert(r@[k].0 <= a && a <= r@[k].1);
            assert(r@[k].0 <= b && b <= r@[k].1);
            assert(in_ranges(r@, a));
            assert(in_ranges(r@, b));
            assert(exists|j: int| 0 <= j < n && #[trigger] marked@[j] == a);
            assert(exists|j: int| 0 <= j < n && #[trigger] marked@[j] == b);
            let j = choose|j: int| 0 <= j < n && #[trigger] marked@[j] == a;
            let j2 = choose|j: int| 0 <= j < n && #[trigger] marked@[j] == b;
            assert(marked@[j] == r@[k].0);
            assert(marked@[j2] == r@[k].1);
        }
        assert forall|x: int|
            marked@.contains(x as usize) && 0 <= x <= usize::MAX <==> in_ranges(r@, x) by {
            if marked@.contains(x as usize) && 0 <= x <= usize::MAX {
                let j = choose|j: int| 0 <= j < marked@.len() && marked@[j] == x as usize;
                assert(marked@[j] == x);
            }
            if in_ranges(r@, x) {
                let j = choose|j: int| 0 <= j < n && #[trigger] marked@[j] == x;
                assert(marked@[j] == x as usize);
            }
        }
    }
    r
}

/// `v` with the element at `a` moved to `b` (`a <= b`), the ones between
/// moving up one place.
pub open spec fn rotate_left<T>(v: Seq<T>, a: int, b: int) -> Seq<T> {
    v.take(a) + v.subrange(a + 1, b + 1) + seq![v[a]] + v.skip(b + 1)
}

/// `v` with the element at `b` moved to `a` (`a <= b`), the ones between
/// moving down one place.
pub open spec fn rotate_right<T>(v: Seq<T>, a: int, b: int) -> Seq<T> {
    v.take(a) + seq![v[b]] + v.subrange(a, b) + v.skip(b + 1)
}

/// Moves each block of `ranges`, first to last, one place up: the element
/// just above a block goes below it.
pub open spec fn blocks_up<T>(v: Seq<T>, ranges: Seq<(usize, usize)>) -> Seq<T>
    decreases ranges.len(),
{
    if ranges.len() == 0 {
        v
    } else {
        blocks_up(rotate_left(v, ranges[0].0 - 1, ranges[0].1 as int), ranges.drop_first())
    }
}

/// Moves each block of `ranges`, last to first, one place down: the
/// element just below a block goes above it.
pub open spec fn blocks_down<T>(v: Seq<T>, ranges: Seq<(usize, usize)>) -> Seq<T>
    decreases ranges.len(),
{
    if ranges.len() == 0 {
        v
    } else {
        blocks_down(
            rotate_right(v, ranges.last().0 as int, ranges.last().1 + 1),
            ranges.drop_last(),
        )
    }
}

/// Swaps the neighbours at `j` and `j + 1`.
fn swap_down<T>(v: &mut Vec<T>, j: usize)
    requires
        j + 1 < old(v).len(),
    ensures
        final(v)@ == old(v)@.update(j as int, old(v)@[j + 1]).update(j + 1, old(v)@[j as int]),
{
    let x = v.remove(j + 1);
    v.insert(j, x);
    assert(v@ =~= old(v)@.update(j as int, old(v)@[j + 1]).update(j + 1, old(v)@[j as int]));
}

/// Moves the block `first..=last` one place up (`first > 0`).
fn block_up<T>(v: &mut Vec<T>, first: usize, last: usize)
    requires
        0 < first <= last < old(v)@.len(),
    ensures
        final(v)@ == rotate_left(old(v)@, first - 1, last as int),
{
    let ghost v0 = v@;
    let mut j = first - 1;
    assert(rotate_left(v0, first - 1, j as int) =~= v0);
    while j < last
        invariant
            0 < first <= last < v0.len(),
            first - 1 <= j <= last,
            v@ == rotate_left(v0, first - 1, j as int),
        decreases last - j,
    {
        swap_down(v, j);
        assert(v@ =~= rotate_left(v0, first - 1, j + 1));
        j = j + 1;
    }
}

/// Moves the block `first..=last` one place down (`last + 1` inside `v`).
fn block_down<T>(v: &mut Vec<T>, first: usize, last: usize)
    requires
        first <= last,
        last + 1 < old(v).len(),
    ensures
        final(v)@ == rotate_right(old(v)@, first as int, last + 1),
{
    let ghost v0 = v@;
    let mut j = last + 1;
    assert(rotate_right(v0, j as int, last + 1) =~= v0);
    while j > first
        invariant
            first <= last,
            last + 1 < v0.len(),
            first <= j <= last + 1,
            v@ == rotate_right(v0, j as int, last + 1),
        decreases j,
    {
        swap_down(v, j - 1);
        assert(v@ =~= rotate_right(v0, j - 1, last + 1));
        j = j - 1;
    }
}

/// A command for the player daemon's queue.
#[derive(Clone, Copy, PartialEq, Eq, Structural, Debug)]
pub enum QueueCommand {
    /// Remove the songs at positions `first..=last`.
    DeleteRange { first: usize, last: usize },
    /// Remove the song with this id.
    DeleteId(u32),
    /// Play the song with this id.
    PlayId(u32),
    /// Shuffle the songs at positions `first..=last`.
    ShuffleRange { first: usize, last: usize },
    /// Shuffle the whole queue.
    ShuffleAll,
    /// Move the songs at positions `first..=last` to start at `to`.
    MoveRange { first: usize, last: usize, to: usize },
    /// Move the song with this id to position `to`.
    MoveId { id: u32, to: usize },
}

/// The queue as its pane holds it.
pub struct QueueState {
    pub items: Vec<Song>,
    /// The marked rows, in increasing order.
    pub marked: Vec<usize>,
    /// The row under the cursor.
    pub selected: Option<usize>,
}

/// Every index of `m` is below `n`.
pub open spec fn all_below(m: Seq<usize>, n: int) -> bool {
    forall|i: int| 0 <= i < m.len() ==> #[trigger] m[i] < n
}

/// The commands that move each block one place up, first block first.
pub open spec fn move_up_commands(r: Seq<(usize, usize)>) -> Seq<QueueCommand> {
    r.map_values(|p: (usize, usize)| QueueCommand::MoveRange { first: p.0, last: p.1, to: (p.0 - 1) as usize })
}

/// The commands that move each block one place down, last block first.
pub open spec fn move_down_commands(r: Seq<(usize, usize)>) -> Seq<QueueCommand> {
    Seq::new(
        r.len(),
        |i: int|
            QueueCommand::MoveRange {
                first: r[r.len() - 1 - i].0,
                last: r[r.len() - 1 - i].1,
                to: (r[r.len() - 1 - i].0 + 1) as usize,
            },
    )
}

/// Each index of `m` shifted by `d`.
pub open spec fn shifted(m: Seq<usize>, d: int) -> Seq<usize> {
    m.map_values(|x: usize| (x + d) as usize)
}

/// Both ends of every range are in `m`.
pub open spec fn ends_marked(r: Seq<(usize, usize)>, m: Seq<usize>) -> bool {
    forall|q: int| 0 <= q < r.len() ==> m.contains(#[trigger] r[q].0) && m.contains(r[q].1)
}

/// The largest index of a sorted, non-empty list is its last; the smallest
/// its first.
proof fn lemma_sorted_bounds(m: Seq<usize>, x: usize)
    requires
        strictly_increasing(m),
        m.contains(x),
    ensures
        m[0] <= x <= m.last(),
{
    let j = choose|j: int| 0 <= j < m.len() && m[j] == x;
    if j > 0 {
        assert(m[0] < m[j]);
    }
    if j < m.len() - 1 {
        assert(m[j] < m[m.len() - 1]);
    }
}

impl QueueState {
    /// The marks are sorted and inside the queue, and so is the cursor.
    pub open spec fn well_formed(&self) -> bool {
        &&& strictly_increasing(self.marked@)
        &&& all_below(self.marked@, self.items@.len() as int)
        &&& (self.selected matches Some(i) ==> i < self.items@.len())
    }

    fn shift_marks(&mut self, up: bool)
        requires
            up ==> forall|i: int| 0 <= i < old(self).marked@.len() ==> old(self).marked@[i] > 0,
            !up ==> forall|i: int|
                0 <= i < old(self).marked@.len() ==> old(self).marked@[i] < usize::MAX,
        ensures
            final(self).marked@ == shifted(old(self).marked@, if up {
                -1
            } else {
                1
            }),
            final(self).items@ == old(self).items@,
            final(self).selected == old(self).selected,
    {
        let n = self.marked.len();
        let ghost m0 = self.marked@;
        for i in 0..n
            invariant
                n == self.marked@.len(),
                n == m0.len(),
                up ==> forall|j: int| 0 <= j < m0.len() ==> m0[j] > 0,
                !up ==> forall|j: int| 0 <= j < m0.len() ==> m0[j] < usize::MAX,
                forall|j: int| 0 <= j < i ==> self.marked@[j] == (m0[j] + if up {
                    -1int
                } else {
                    1int
                }),
                forall|j: int| i <= j < n ==> self.marked@[j] == m0[j],
                self.items@ == old(self).items@,
                self.selected == old(self).selected,
        {
            let x = self.marked[i];
            assert(x == m0[i as int]);
            let y = if up {
                x - 1
            } else {
                x + 1
            };
            self.marked.set(i, y);
        }
        assert(self.marked@ =~= shifted(m0, if up {
            -1
        } else {
            1
        }));
    }

    /// Moves the marked songs one place up, each block of neighbouring
    /// marked songs as one, and returns the matching commands; the marks
    /// and the cursor follow. Nothing moves when a marked song is already
    /// at the top.
    pub fn move_marked_up(&mut self) -> (r: Vec<QueueCommand>)
        requires
            old(self).well_formed(),
            old(self).marked@.len() > 0,
        ensures
            final(self).well_formed(),
            if old(self).marked@[0] == 0 {
                r@.len() == 0 && final(self).items@ == old(self).items@ && final(self).marked@
                    == old(self).marked@ && final(self).selected == old(self).selected
            } else {
                &&& final(self).items@ == blocks_up(old(self).items@, runs(old(self).marked@))
                &&& r@ == move_up_commands(runs(old(self).marked@))
                &&& final(self).marked@ == shifted(old(self).marked@, -1)
                &&& final(self).selected == Some((old(self).marked@[0] - 1) as usize)
            },
    {
        if self.marked[0] == 0 {
            return Vec::new();
        }
        let ranges = marked_ranges(&self.marked);
        let ghost v0 = self.items@;
        let ghost m0 = self.marked@;
        let n = self.items.len();
        let mut commands: Vec<QueueCommand> = Vec::new();
        let count = ranges.len();
        assert(ranges@.skip(0) =~= ranges@);
        for k in 0..count
            invariant
                count == ranges@.len(),
                ranges@ == runs(m0),
                separated_ranges(ranges@),
                ends_marked(ranges@, m0),
                strictly_increasing(m0),
                all_below(m0, n as int),
                m0.len() > 0,
                m0[0] > 0,
                self.marked@ == m0,
                n == self.items@.len(),
                blocks_up(v0, ranges@) == blocks_up(self.items@, ranges@.skip(k as int)),
                commands@ == move_up_commands(ranges@.take(k as int)),
        {
            let (first, last) = ranges[k];
            proof {
                assert(m0.contains(first) && m0.contains(last));
                lemma_sorted_bounds(m0, first);
                let j = choose|j: int| 0 <= j < m0.len() && m0[j] == last;
                assert(m0[j] < n);
                assert(ranges@[k as int].0 <= ranges@[k as int].1);
                assert(ranges@.skip(k as int).drop_first() =~= ranges@.skip(k + 1));
            }
            block_up(&mut self.items, first, last);
            commands.push(QueueCommand::MoveRange { first, last, to: first - 1 });
            assert(commands@ =~= move_up_commands(ranges@.take(k + 1)));
        }
        assert(ranges@.skip(count as int) =~= Seq::<(usize, usize)>::empty());
        assert(ranges@.take(count as int) =~= ranges@);
        let first_marked = self.marked[0];
        proof {
            assert forall|i: int| 0 <= i < m0.len() implies m0[i] > 0 by {
                if i > 0 {
                    assert(m0[0] < m0[i]);
                }
            }
        }
        self.shift_marks(true);
        self.selected = Some(first_marked - 1);
        proof {
            assert forall|i: int| 0 <= i < self.marked@.len() implies #[trigger] self.marked@[i]
                < self.items@.len() by {
                assert(m0[i] < n);
            }
        }
        commands
    }

    /// Moves the marked songs one place down, each block of neighbouring
    /// marked songs as one, last block first, and returns the matching
    /// commands; the marks and the cursor follow. Nothing moves when a
    /// marked song is already at the bottom.
    pub fn move_marked_down(&mut self) -> (r: Vec<QueueCommand>)
        requires
            old(self).well_formed(),
            old(self).marked@.len() > 0,
        ensures
            final(self).well_formed(),
            if old(self).marked@.last() + 1 == old(self).items@.len() {
                r@.len() == 0 && final(self).items@ == old(self).items@ && final(self).marked@
                    == old(self).marked@ && final(self).selected == old(self).selected
            } else {
                &&& final(self).items@ == blocks_down(old(self).items@, runs(old(self).marked@))
                &&& r@ == move_down_commands(runs(old(self).marked@))
                &&& final(self).marked@ == shifted(old(self).marked@, 1)
                &&& final(self).selected == Some((old(self).marked@.last() + 1) as usize)
            },
    {
        let n = self.items.len();
        let mlen = self.marked.len();
        let last_marked = self.marked[mlen - 1];
        assert(self.marked@[mlen - 1] < n);
        if last_marked + 1 == n {
            return Vec::new();
        }
        let ranges = marked_ranges(&self.marked);
        let ghost v0 = self.items@;
        let ghost m0 = self.marked@;
        let mut commands: Vec<QueueCommand> = Vec::new();
        let count = ranges.len();
        let mut k = count;
        assert(ranges@.take(count as int) =~= ranges@);
        while k > 0
            invariant
                count == ranges@.len(),
                k <= count,
                ranges@ == runs(m0),
                separated_ranges(ranges@),
                ends_marked(ranges@, m0),
                strictly_increasing(m0),
                all_below(m0, n as int),
                m0.len() > 0,
                m0.last() + 1 < n,
                self.marked@ == m0,
                n == self.items@.len(),
                blocks_down(v0, ranges@) == blocks_down(self.items@, ranges@.take(k as int)),
                commands@ == move_down_commands(ranges@.skip(k as int)),
            decreases k,
        {
            let (first, last) = ranges[k - 1];
            proof {
                assert(m0.contains(first) && m0.contains(last));
                lemma_sorted_bounds(m0, last);
                assert(ranges@[k - 1].0 <= ranges@[k - 1].1);
                assert(ranges@.take(k as int).drop_last() =~= ranges@.take(k - 1));
            }
            block_down(&mut self.items, first, last);
            commands.push(QueueCommand::MoveRange { first, last, to: first + 1 });
            assert(commands@ =~= move_down_commands(ranges@.skip(k - 1)));
            k = k - 1;
        }
        assert(ranges@.take(0) =~= Seq::<(usize, usize)>::empty());
        assert(ranges@.skip(0) =~= ranges@);
        proof {
            assert forall|i: int| 0 <= i < m0.len() implies m0[i] < usize::MAX by {
                assert(m0[i] < n);
            }
        }
        self.shift_marks(false);
        self.selected = Some(last_marked + 1);
        proof {
            assert forall|i: int| 0 <= i < self.marked@.len() implies #[trigger] self.marked@[i]
                < self.items@.len() by {
                if i < m0.len() - 1 {
                    assert(m0[i] < m0[m0.len() - 1]);
                }
            }
        }
        commands
    }
}

/// The commands that act on each block, last block first.
pub open spec fn per_block_reversed(r: Seq<(usize, usize)>, delete: bool) -> Seq<QueueCommand> {
    Seq::new(
        r.len(),
        |i: int|
            if delete {
                QueueCommand::DeleteRange { first: r[r.len() - 1 - i].0, last: r[r.len() - 1 - i].1 }
            } else {
                QueueCommand::ShuffleRange { first: r[r.len() - 1 - i].0, last: r[r.len() - 1 - i].1 }
            },
    )
}

/// The indices `0..n` that are not in `m`, in increasing order.
pub open spec fn unmarked_below(m: Seq<usize>, n: int) -> Seq<usize>
    decreases n,
{
    if n <= 0 {
        Seq::empty()
    } else if m.contains((n - 1) as usize) {
        unmarked_below(m, n - 1)
    } else {
        unmarked_below(m, n - 1).push((n - 1) as usize)
    }
}

/// What the queue pane's own key actions are.
#[derive(Clone, Copy, PartialEq, Eq, Structural, Debug)]
pub enum QueueActions {
    Delete,
    DeleteAll,
    Play,
    JumpToCurrent,
    Shuffle,
    Unused,
}

impl QueueState {
    /// A queue with nothing marked and the cursor on the first song, if any.
    pub fn new(items: Vec<Song>) -> (r: QueueState)
        ensures
            r.items@ == items@,
            r.marked@.len() == 0,
            r.selected == (if items@.len() > 0 {
                Some(0usize)
            } else {
                None
            }),
            r.well_formed(),
    {
        let selected = if items.len() > 0 {
            Some(0)
        } else {
            None
        };
        QueueState { items, marked: Vec::new(), selected }
    }

    /// The commands that act on the marked blocks, last block first.
    fn block_commands(&self, delete: bool) -> (r: Vec<QueueCommand>)
        requires
            strictly_increasing(self.marked@),
        ensures
            r@ == per_block_reversed(runs(self.marked@), delete),
    {
        let ranges = marked_ranges(&self.marked);
        let mut r: Vec<QueueCommand> = Vec::new();
        let mut k = ranges.len();
        while k > 0
            invariant
                k <= ranges@.len(),
                r@ == per_block_reversed(ranges@.skip(k as int), delete),
            decreases k,
        {
            let (first, last) = ranges[k - 1];
            if delete {
                r.push(QueueCommand::DeleteRange { first, last });
            } else {
                r.push(QueueCommand::ShuffleRange { first, last });
            }
            assert(r@ =~= per_block_reversed(ranges@.skip(k - 1), delete));
            k = k - 1;
        }
        assert(ranges@.skip(0) =~= ranges@);
        r
    }

    /// Deletes the marked songs (block by block, last block first) and
    /// clears the marks, or else the song under the cursor; with neither,
    /// nothing is deleted.
    pub fn delete(&mut self) -> (r: Vec<QueueCommand>)
        requires
            old(self).well_formed(),
        ensures
            final(self).well_formed(),
            final(self).items@ == old(self).items@,
            final(self).selected == old(self).selected,
            if old(self).marked@.len() > 0 {
                r@ == per_block_reversed(runs(old(self).marked@), true) && final(self).marked@.len()
                    == 0
            } else {
                final(self).marked@ == old(self).marked@ && match old(self).selected {
                    Some(i) => r@ == seq![QueueCommand::DeleteId(old(self).items@[i as int].id)],
                    None => r@.len() == 0,
                }
            },
    {
        if self.marked.len() > 0 {
            let r = self.block_commands(true);
            self.marked = Vec::new();
            r
        } else {
            match self.selected {
                Some(i) => {
                    let id = self.items[i].id;
                    vec![QueueCommand::DeleteId(id)]
                },
                None => Vec::new(),
            }
        }
    }

    /// Shuffles the marked blocks, last block first, or else the whole
    /// queue.
    pub fn shuffle(&self) -> (r: Vec<QueueCommand>)
        requires
            self.well_formed(),
        ensures
            if self.marked@.len() > 0 {
                r@ == per_block_reversed(runs(self.marked@), false)
            } else {
                r@ == seq![QueueCommand::ShuffleAll]
            },
    {
        if self.marked.len() > 0 {
            self.block_commands(false)
        } else {
            vec![QueueCommand::ShuffleAll]
        }
    }

    /// Plays the song under the cursor.
    pub fn play(&self) -> (r: Option<QueueCommand>)
        requires
            self.well_formed(),
        ensures
            match self.selected {
                Some(i) => r == Some(QueueCommand::PlayId(self.items@[i as int].id)),
                None => r is None,
            },
    {
        match self.selected {
            Some(i) => Some(QueueCommand::PlayId(self.items[i].id)),
            None => None,
        }
    }

    /// Puts the cursor on the first song with the id of the song playing;
    /// tells whether there was one.
    pub fn jump_to_current(&mut self, current: Option<u32>) -> (found: bool)
        requires
            old(self).well_formed(),
        ensures
            final(self).well_formed(),
            final(self).items@ == old(self).items@,
            final(self).marked@ == old(self).marked@,
            found <==> (current matches Some(id) && exists|i: int|
                0 <= i < old(self).items@.len() && #[trigger] old(self).items@[i].id == id),
            found ==> (final(self).selected matches Some(i) && current == Some(
                old(self).items@[i as int].id,
            ) && forall|j: int| 0 <= j < i ==> #[trigger] old(self).items@[j].id != current->0),
            !found ==> final(self).selected == old(self).selected,
    {
        let id = match current {
            Some(id) => id,
            None => {
                return false;
            },
        };
        let n = self.items.len();
        for i in 0..n
            invariant
                n == self.items@.len(),
                self.well_formed(),
                self.items@ == old(self).items@,
                self.marked@ == old(self).marked@,
                self.selected == old(self).selected,
                current == Some(id),
                forall|j: int| 0 <= j < i ==> #[trigger] self.items@[j].id != id,
        {
            if self.items[i].id == id {
                self.selected = Some(i);
                return true;
            }
        }
        false
    }

    /// Marks every unmarked song and unmarks every marked one.
    pub fn invert_marked(&mut self)
        requires
            old(self).well_formed(),
        ensures
            final(self).well_formed(),
            final(self).items@ == old(self).items@,
            final(self).selected == old(self).selected,
            final(self).marked@ == unmarked_below(old(self).marked@, old(self).items@.len() as int),
            forall|x: usize|
                final(self).marked@.contains(x) <==> x < old(self).items@.len()
                    && !old(self).marked@.contains(x),
    {
        let n = self.items.len();
        let mut r: Vec<usize> = Vec::new();
        for i in 0..n
            invariant
                n == self.items@.len(),
                r@ == unmarked_below(self.marked@, i as int),
                strictly_increasing(r@),
                all_below(r@, i as int),
                forall|x: usize| r@.contains(x) <==> x < i && !self.marked@.contains(x),
        {
            let ghost before = r@;
            if !crate::screens::browser::contains_index(&self.marked, i) {
                r.push(i);
                proof {
                    assert forall|x: usize| r@.contains(x) <==> x < i + 1 && !self.marked@.contains(
                        x,
                    ) by {
                        if r@.contains(x) && x != i {
                            let j = choose|j: int| 0 <= j < r@.len() && r@[j] == x;
                            assert(j < before.len());
                            assert(before[j] == x);
                            assert(before.contains(x));
                        }
                        if x < i + 1 && !self.marked@.contains(x) && x != i {
                            assert(before.contains(x));
                            let j = choose|j: int| 0 <= j < before.len() && before[j] == x;
                            assert(r@[j] == x);
                        }
                        if x == i {
                            assert(r@[r@.len() - 1] == x);
                        }
                    }
                }
            } else {
                proof {
                    assert forall|x: usize| r@.contains(x) <==> x < i + 1 && !self.marked@.contains(
                        x,
                    ) by {
                        if r@.contains(x) {
                            let j = choose|j: int| 0 <= j < r@.len() && r@[j] == x;
                            assert(r@[j] < i);
                        }
                    }
                }
            }
        }
        self.marked = r;
    }

    /// Marks the song under the cursor, or unmarks it when it is marked.
    pub fn toggle_mark_selected(&mut self)
        requires
            old(self).well_formed(),
        ensures
            final(self).well_formed(),
            final(self).items@ == old(self).items@,
            final(self).selected == old(self).selected,
            match old(self).selected {
                Some(s) => forall|x: usize|
                    final(self).marked@.contains(x) <==> (old(self).marked@.contains(x) != (x
                        == s)),
                None => final(self).marked@ == old(self).marked@,
            },
    {
        let s = match self.selected {
            Some(s) => s,
            None => {
                return ;
            },
        };
        let n = self.marked.len();
        let mut pos: usize = 0;
        while pos < n && self.marked[pos] < s
            invariant
                n == self.marked@.len(),
                pos <= n,
                forall|j: int| 0 <= j < pos ==> #[trigger] self.marked@[j] < s,
            decreases n - pos,
        {
            pos = pos + 1;
        }
        let ghost m0 = self.marked@;
        if pos < n && self.marked[pos] == s {
            self.marked.remove(pos);
            proof {
                assert forall|x: usize| self.marked@.contains(x) <==> (m0.contains(x) != (x == s)) by {
                    if self.marked@.contains(x) {
                        let j = choose|j: int| 0 <= j < self.marked@.len() && self.marked@[j] == x;
                        if j < pos {
                            assert(m0[j] == x);
                        } else {
                            assert(m0[j + 1] == x);
                            assert(m0[pos as int] < m0[j + 1]);
                        }
                    }
                    if m0.contains(x) && x != s {
                        let j = choose|j: int| 0 <= j < m0.len() && m0[j] == x;
                        if j < pos {
                            assert(self.marked@[j] == x);
                        } else {
                            assert(j != pos);
                            assert(self.marked@[j - 1] == x);
                        }
                    }
                }
                assert forall|i: int, j: int|
                    0 <= i < j < self.marked@.len() implies self.marked@[i] < self.marked@[j] by {
                    let i0 = if i < pos { i } else { i + 1 };
                    let j0 = if j < pos { j } else { j + 1 };
                    assert(m0[i0] < m0[j0]);
                }
            }
        } else {
            self.marked.insert(pos, s);
            proof {
                assert forall|x: usize| self.marked@.contains(x) <==> (m0.contains(x) != (x == s)) by {
                    if self.marked@.contains(x) && x != s {
                        let j = choose|j: int| 0 <= j < self.marked@.len() && self.marked@[j] == x;
                        if j < pos {
                            assert(m0[j] == x);
                        } else {
                            assert(j != pos);
                            assert(m0[j - 1] == x);
                        }
                    }
                    if x == s {
                        assert(self.marked@[pos as int] == s);
                        if m0.contains(s) {
                            let j = choose|j: int| 0 <= j < m0.len() && m0[j] == s;
                            if j < pos {
                                assert(m0[j] < s);
                            } else if j > pos {
                                assert(m0[pos as int] < m0[j]);
                            }
                        }
                    }
                    if m0.contains(x) && x != s {
                        let j = choose|j: int| 0 <= j < m0.len() && m0[j] == x;
                        if j < pos {
                            assert(self.marked@[j] == x);
                        } else {
                            assert(self.marked@[j + 1] == x);
                        }
                    }
                }
                assert forall|i: int, j: int|
                    0 <= i < j < self.marked@.len() implies self.marked@[i] < self.marked@[j] by {
                    if pos < n {
                        assert(m0[pos as int] > s);
                    }
                    if i < pos && j > pos {
                        assert(m0[i] < s);
                        if j - 1 > pos {
                            assert(m0[pos as int] < m0[j - 1]);
                        }
                    } else if i == pos && j > pos {
                        if j - 1 > pos {
                            assert(m0[pos as int] < m0[j - 1]);
                        }
                    } else if i < pos && j == pos {
                        assert(m0[i] < s);
                    } else if i > pos {
                        assert(m0[i - 1] < m0[j - 1]);
                    } else {
                        assert(m0[i] < m0[j]);
                    }
                }
            }
        }
        proof {
            assert forall|i: int| 0 <= i < self.marked@.len() implies #[trigger] self.marked@[i]
                < self.items@.len() by {
                let x = self.marked@[i];
                assert(self.marked@.contains(x));
                if x != s {
                    assert(m0.contains(x));
                    let j = choose|j: int| 0 <= j < m0.len() && m0[j] == x;
                    assert(m0[j] < self.items@.len());
                }
            }
        }
    }
}

/// The rows an action on "the songs" takes: every row, or else the marked
/// rows, or else the row under the cursor.
pub open spec fn chosen_rows(all: bool, n: int, marked: Seq<usize>, selected: Option<usize>) -> Seq<
    usize,
> {
    if all {
        Seq::new(n as nat, |i: int| i as usize)
    } else if marked.len() > 0 {
        marked
    } else {
        match selected {
            Some(i) => seq![i],
            None => Seq::empty(),
        }
    }
}

/// The last position of `rows` whose song has the file `file`.
pub open spec fn last_with_file(items: Seq<Song>, rows: Seq<usize>, file: Seq<char>) -> Option<usize>
    decreases rows.len(),
{
    if rows.len() == 0 {
        None
    } else if items[rows.last() as int].file@ == file {
        Some(rows.last())
    } else {
        last_with_file(items, rows.drop_last(), file)
    }
}

impl QueueState {
    /// Moves the song under the cursor one place up and the cursor with it
    /// (a song at the top stays).
    pub fn move_selected_up(&mut self) -> (r: Option<QueueCommand>)
        requires
            old(self).well_formed(),
        ensures
            final(self).well_formed(),
            final(self).marked@ == old(self).marked@,
            match old(self).selected {
                None => r is None && *final(self) == *old(self),
                Some(i) => {
                    let to = if i == 0 {
                        0
                    } else {
                        i - 1
                    };
                    &&& r == Some(QueueCommand::MoveId { id: old(self).items@[i as int].id, to: to as usize })
                    &&& final(self).selected == Some(to as usize)
                    &&& final(self).items@ == if i == 0 {
                        old(self).items@
                    } else {
                        rotate_left(old(self).items@, i - 1, i as int)
                    }
                },
            },
    {
        let i = match self.selected {
            Some(i) => i,
            None => {
                return None;
            },
        };
        let to = if i == 0 {
            0
        } else {
            i - 1
        };
        let id = self.items[i].id;
        self.selected = Some(to);
        if i > 0 {
            swap_down(&mut self.items, i - 1);
            assert(self.items@ =~= rotate_left(old(self).items@, i - 1, i as int));
        }
        Some(QueueCommand::MoveId { id, to })
    }

    /// Moves the song under the cursor one place down and the cursor with
    /// it (a song at the bottom stays).
    pub fn move_selected_down(&mut self) -> (r: Option<QueueCommand>)
        requires
            old(self).well_formed(),
        ensures
            final(self).well_formed(),
            final(self).marked@ == old(self).marked@,
            match old(self).selected {
                None => r is None && *final(self) == *old(self),
                Some(i) => {
                    let to = if i + 1 < old(self).items@.len() {
                        i + 1
                    } else {
                        i as int
                    };
                    &&& r == Some(QueueCommand::MoveId { id: old(self).items@[i as int].id, to: to as usize })
                    &&& final(self).selected == Some(to as usize)
                    &&& final(self).items@ == if to == i {
                        old(self).items@
                    } else {
                        rotate_left(old(self).items@, i as int, i + 1)
                    }
                },
            },
    {
        let i = match self.selected {
            Some(i) => i,
            None => {
                return None;
            },
        };
        let n = self.items.len();
        let to = if i < n - 1 {
            i + 1
        } else {
            i
        };
        let id = self.items[i].id;
        self.selected = Some(to);
        if to != i {
            swap_down(&mut self.items, i);
            assert(self.items@ =~= rotate_left(old(self).items@, i as int, i + 1));
        }
        Some(QueueCommand::MoveId { id, to })
    }

    /// Unmarks every song.
    pub fn clear_marked(&mut self)
        requires
            old(self).well_formed(),
        ensures
            final(self).well_formed(),
            final(self).marked@.len() == 0,
            final(self).items@ == old(self).items@,
            final(self).selected == old(self).selected,
    {
        self.marked = Vec::new();
    }

    /// The rows an action takes: all of them, or else the marked ones, or
    /// else the one under the cursor.
    pub fn rows(&self, all: bool) -> (r: Vec<usize>)
        requires
            self.well_formed(),
        ensures
            r@ == chosen_rows(all, self.items@.len() as int, self.marked@, self.selected),
            all_below(r@, self.items@.len() as int),
    {
        if all {
            let n = self.items.len();
            let mut r: Vec<usize> = Vec::new();
            for i in 0..n
                invariant
                    r@ == Seq::new(i as nat, |j: int| j as usize),
            {
                r.push(i);
                assert(r@ =~= Seq::new((i + 1) as nat, |j: int| j as usize));
            }
            r
        } else if self.marked.len() > 0 {
            self.marked.clone()
        } else {
            match self.selected {
                Some(i) => vec![i],
                None => Vec::new(),
            }
        }
    }

    /// The files of the rows an action takes, in order, and the last of
    /// those rows holding the file under the cursor.
    pub fn enqueue_items(&self, all: bool) -> (r: (Vec<String>, Option<usize>))
        requires
            self.well_formed(),
        ensures
            ({
                let rows = chosen_rows(all, self.items@.len() as int, self.marked@, self.selected);
                &&& r.0@.len() == rows.len()
                &&& forall|k: int| 0 <= k < rows.len() ==> #[trigger] r.0@[k]@ == self.items@[rows[k] as int].file@
                &&& r.1 == match self.selected {
                    Some(s) => last_with_file(self.items@, rows, self.items@[s as int].file@),
                    None => None,
                }
            }),
    {
        let rows = self.rows(all);
        let hovered: Option<&str> = match self.selected {
            Some(s) => Some(self.items[s].file.as_str()),
            None => None,
        };
        let mut files: Vec<String> = Vec::new();
        let mut found: Option<usize> = None;
        for k in 0..rows.len()
            invariant
                all_below(rows@, self.items@.len() as int),
                files@.len() == k,
                forall|q: int| 0 <= q < k ==> #[trigger] files@[q]@ == self.items@[rows@[q] as int].file@,
                match hovered {
                    Some(h) => found == last_with_file(self.items@, rows@.take(k as int), h@),
                    None => found is None,
                },
                match self.selected {
                    Some(s) => hovered matches Some(h) && h@ == self.items@[s as int].file@,
                    None => hovered is None,
                },
        {
            let idx = rows[k];
            let path = self.items[idx].file.clone();
            assert(rows@.take(k + 1).drop_last() =~= rows@.take(k as int));
            match hovered {
                Some(h) => {
                    if crate::text::str_equals(h, path.as_str()) {
                        found = Some(idx);
                    }
                },
                None => {},
            }
            files.push(path);
        }
        assert(rows@.take(rows@.len() as int) =~= rows@);
        (files, found)
    }
}

/// Each range moved by `d`.
pub open spec fn shifted_ranges(r: Seq<(usize, usize)>, d: int) -> Seq<(usize, usize)> {
    r.map_values(|p: (usize, usize)| ((p.0 + d) as usize, (p.1 + d) as usize))
}

/// Moving every index of a list one place up moves its runs with it.
proof fn lemma_runs_shift_up(m: Seq<usize>)
    requires
        forall|i: int| 0 <= i < m.len() ==> m[i] > 0,
    ensures
        runs(shifted(m, -1)) == shifted_ranges(runs(m), -1),
    decreases m.len(),
{
    if m.len() > 0 {
        let sm = shifted(m, -1);
        assert(sm.drop_last() =~= shifted(m.drop_last(), -1));
        lemma_runs_shift_up(m.drop_last());
        let r = runs(m.drop_last());
        let rs = runs(sm.drop_last());
        assert(rs == shifted_ranges(r, -1));
        assert(m[m.len() - 1] > 0);
        if r.len() > 0 {
            assert(rs.last() == ((r.last().0 - 1) as usize, (r.last().1 - 1) as usize));
        }
        if r.len() > 0 && r.last().1 + 1 == m.last() {
            assert(runs(sm) =~= shifted_ranges(runs(m), -1));
        } else {
            assert(runs(sm) =~= shifted_ranges(runs(m), -1));
        }
    }
}

/// Putting back what a rotation to the left moved.
proof fn lemma_rotate_inverse<T>(v: Seq<T>, a: int, b: int)
    requires
        0 <= a <= b < v.len(),
    ensures
        rotate_right(rotate_left(v, a, b), a, b) == v,
        rotate_left(v, a, b).len() == v.len(),
{
    assert(rotate_right(rotate_left(v, a, b), a, b) =~= v);
}

/// Moving the blocks down, last first, is moving all but the first block
/// and then the first one.
proof fn lemma_blocks_down_first<T>(w: Seq<T>, r: Seq<(usize, usize)>)
    requires
        r.len() > 0,
    ensures
        blocks_down(w, r) == rotate_right(
            blocks_down(w, r.drop_first()),
            r[0].0 as int,
            r[0].1 + 1,
        ),
    decreases r.len(),
{
    if r.len() == 1 {
        assert(r.drop_first() =~= Seq::<(usize, usize)>::empty());
        assert(r.drop_last() =~= Seq::<(usize, usize)>::empty());
        reveal_with_fuel(blocks_down, 2);
        assert(r.last() == r[0]);
    } else {
        let w1 = rotate_right(w, r.last().0 as int, r.last().1 + 1);
        lemma_blocks_down_first(w1, r.drop_last());
        assert(r.drop_last().drop_first() =~= r.drop_first().drop_last());
        assert(r.drop_first().last() == r.last());
        assert(r.drop_last()[0] == r[0]);
        assert(blocks_down(w, r) == blocks_down(w1, r.drop_last()));
        assert(blocks_down(w, r.drop_first()) == blocks_down(
            w1,
            r.drop_first().drop_last(),
        ));
    }
}

/// Moving blocks up and then the moved blocks down gives the sequence
/// back, whenever each block has a row above it.
proof fn lemma_blocks_up_down<T>(v: Seq<T>, r: Seq<(usize, usize)>)
    requires
        forall|k: int| 0 <= k < r.len() ==> 1 <= #[trigger] r[k].0 <= r[k].1 < v.len(),
    ensures
        blocks_down(blocks_up(v, r), shifted_ranges(r, -1)) == v,
        blocks_up(v, r).len() == v.len(),
    decreases r.len(),
{
    if r.len() > 0 {
        let a = r[0].0 - 1;
        let b = r[0].1 as int;
        let v1 = rotate_left(v, a, b);
        lemma_rotate_inverse(v, a, b);
        assert forall|k: int| 0 <= k < r.drop_first().len() implies 1 <= #[trigger] r.drop_first()[k].0
            <= r.drop_first()[k].1 < v1.len() by {
            assert(r.drop_first()[k] == r[k + 1]);
        }
        lemma_blocks_up_down(v1, r.drop_first());
        let rs = shifted_ranges(r, -1);
        assert(rs.drop_first() =~= shifted_ranges(r.drop_first(), -1));
        lemma_blocks_down_first(blocks_up(v1, r.drop_first()), rs);
    }
}

/// Moving the marked songs up and then down again gives the queue back,
/// with the same marks, whenever no marked song is at the top.
pub proof fn law_move_marked_up_then_down<T>(items: Seq<T>, marked: Seq<usize>)
    requires
        strictly_increasing(marked),
        all_below(marked, items.len() as int),
        marked.len() > 0,
        marked[0] > 0,
    ensures
        shifted(marked, -1).last() + 1 < items.len(),
        blocks_down(blocks_up(items, runs(marked)), runs(shifted(marked, -1))) == items,
        shifted(shifted(marked, -1), 1) == marked,
{
    assert forall|i: int| 0 <= i < marked.len() implies marked[i] > 0 by {
        if i > 0 {
            assert(marked[0] < marked[i]);
        }
    }
    lemma_runs_shift_up(marked);
    let r = runs(marked);
    assert forall|k: int| 0 <= k < r.len() implies 1 <= #[trigger] r[k].0 <= r[k].1 < items.len() by {
        lemma_runs_cover(marked);
        assert(marked.contains(r[k].0) && marked.contains(r[k].1));
        lemma_sorted_bounds(marked, r[k].0);
        let j = choose|j: int| 0 <= j < marked.len() && marked[j] == r[k].1;
        assert(marked[j] < items.len());
    }
    lemma_blocks_up_down(items, r);
    assert(marked[marked.len() - 1] < items.len());
    assert(shifted(shifted(marked, -1), 1) =~= marked);
}

/// The ends of each run are indices of the list, and each run is non-empty.
proof fn lemma_runs_cover(m: Seq<usize>)
    requires
        strictly_increasing(m),
    ensures
        ends_marked(runs(m), m),
        forall|k: int| 0 <= k < runs(m).len() ==> #[trigger] runs(m)[k].0 <= runs(m)[k].1,
    decreases m.len(),
{
    if m.len() > 0 {
        let p = m.drop_last();
        assert forall|i: int, j: int| 0 <= i < j < p.len() implies p[i] < p[j] by {
            assert(m[i] < m[j]);
        }
        lemma_runs_cover(p);
        let r = runs(p);
        assert(ends_marked(r, p));
        if r.len() > 0 {
            assert(p.contains(r.last().0));
            lemma_sorted_bounds_le(p, r.last().0, m);
        }
        assert forall|q: int| 0 <= q < runs(m).len() implies m.contains(#[trigger] runs(m)[q].0)
            && m.contains(runs(m)[q].1) by {
            if q < r.len() {
                assert(p.contains(r[q].0));
                assert(p.contains(r[q].1));
                let j1 = choose|j: int| 0 <= j < p.len() && p[j] == r[q].0;
                let j2 = choose|j: int| 0 <= j < p.len() && p[j] == r[q].1;
                assert(m[j1] == r[q].0);
                assert(m[j2] == r[q].1);
            }
            assert(m[m.len() - 1] == m.last());
        }
    }
}

/// Every element of a sorted prefix lies below the next element.
proof fn lemma_sorted_bounds_le(p: Seq<usize>, x: usize, m: Seq<usize>)
    requires
        strictly_increasing(m),
        m.len() > 0,
        p == m.drop_last(),
        p.contains(x),
    ensures
        x < m.last(),
{
    let j = choose|j: int| 0 <= j < p.len() && p[j] == x;
    assert(m[j] < m[m.len() - 1]);
}

/// Inverting the marks twice gives the same marked rows back.
pub proof fn law_invert_marked_twice(m: Seq<usize>, n: int)
    requires
        all_below(m, n),
        n <= usize::MAX,
    ensures
        forall|x: usize|
            unmarked_below(unmarked_below(m, n), n).contains(x) <==> m.contains(x),
{
    lemma_unmarked_below(m, n);
    lemma_unmarked_below(unmarked_below(m, n), n);
    assert forall|x: usize| unmarked_below(unmarked_below(m, n), n).contains(x) <==> m.contains(
        x,
    ) by {
        if m.contains(x) {
            let j = choose|j: int| 0 <= j < m.len() && m[j] == x;
            assert(m[j] < n);
        }
    }
}

/// The rows `unmarked_below` lists are those below `n` not in `m`.
pub proof fn lemma_unmarked_below(m: Seq<usize>, n: int)
    requires
        n <= usize::MAX,
    ensures
        forall|x: usize| #[trigger] unmarked_below(m, n).contains(x) <==> x < n && !m.contains(x),
    decreases n,
{
    if n > 0 {
        lemma_unmarked_below(m, n - 1);
        let prev = unmarked_below(m, n - 1);
        let last = (n - 1) as usize;
        assert(last == n - 1);
        if m.contains(last) {
            assert(unmarked_below(m, n) == prev);
            assert forall|x: usize| #[trigger] unmarked_below(m, n).contains(x) <==> x < n
                && !m.contains(x) by {
                assert(prev.contains(x) <==> x < n - 1 && !m.contains(x));
            }
        } else {
            let cur = prev.push(last);
            assert(unmarked_below(m, n) == cur);
            assert forall|x: usize| #[trigger] unmarked_below(m, n).contains(x) <==> x < n
                && !m.contains(x) by {
                assert(prev.contains(x) <==> x < n - 1 && !m.contains(x));
                assert(cur[prev.len() as int] == last);
                if cur.contains(x) && x != last {
                    let j = choose|j: int| 0 <= j < cur.len() && cur[j] == x;
                    assert(j < prev.len());
                    assert(prev[j] == x);
                }
                if x < n && !m.contains(x) && x != last {
                    assert(prev.contains(x));
                    let j = choose|j: int| 0 <= j < prev.len() && prev[j] == x;
                    assert(cur[j] == x);
                }
            }
        }
    }
}

/// What handling a queue action asks of the rest of the client.
pub enum QueueOutcome {
    /// Send these commands, in order.
    Commands(Vec<QueueCommand>),
    /// Ask for confirmation, then clear the queue.
    ConfirmClear,
    /// Tell the user that no song is selected.
    NoSongSelected,
    /// Tell the user that no song is playing.
    NoSongPlaying,
    /// Nothing to send; the cursor may have moved.
    Nothing,
}

impl QueueState {
    /// Handles one of the queue pane's own actions, given the id of the
    /// song playing.
    pub fn handle_queue_action(&mut self, action: QueueActions, current: Option<u32>) -> (r:
        QueueOutcome)
        requires
            old(self).well_formed(),
        ensures
            final(self).well_formed(),
            final(self).items@ == old(self).items@,
            match action {
                QueueActions::Delete => if old(self).marked@.len() > 0 {
                    r matches QueueOutcome::Commands(c) && c@ == per_block_reversed(
                        runs(old(self).marked@),
                        true,
                    ) && final(self).marked@.len() == 0
                } else {
                    final(self).marked@ == old(self).marked@ && match old(self).selected {
                        Some(i) => r matches QueueOutcome::Commands(c) && c@ == seq![
                            QueueCommand::DeleteId(old(self).items@[i as int].id),
                        ],
                        None => r is NoSongSelected,
                    }
                },
                QueueActions::DeleteAll => r is ConfirmClear && *final(self) == *old(self),
                QueueActions::Play => *final(self) == *old(self) && match old(self).selected {
                    Some(i) => r matches QueueOutcome::Commands(c) && c@ == seq![
                        QueueCommand::PlayId(old(self).items@[i as int].id),
                    ],
                    None => r is Nothing,
                },
                QueueActions::JumpToCurrent => final(self).marked@ == old(self).marked@ && if (
                current matches Some(id) && exists|i: int|
                    0 <= i < old(self).items@.len() && #[trigger] old(self).items@[i].id == id) {
                    r is Nothing && (final(self).selected matches Some(i) && current == Some(
                        old(self).items@[i as int].id,
                    ))
                } else {
                    r is NoSongPlaying && final(self).selected == old(self).selected
                },
                QueueActions::Shuffle => *final(self) == *old(self) && (r matches QueueOutcome::Commands(c)
                    && if old(self).marked@.len() > 0 {
                    c@ == per_block_reversed(runs(old(self).marked@), false)
                } else {
                    c@ == seq![QueueCommand::ShuffleAll]
                }),
                QueueActions::Unused => r is Nothing && *final(self) == *old(self),
            },
    {
        match action {
            QueueActions::Delete => {
                if self.marked.len() == 0 && self.selected.is_none() {
                    return QueueOutcome::NoSongSelected;
                }
                QueueOutcome::Commands(self.delete())
            },
            QueueActions::DeleteAll => QueueOutcome::ConfirmClear,
            QueueActions::Play => match self.play() {
                Some(c) => QueueOutcome::Commands(vec![c]),
                None => QueueOutcome::Nothing,
            },
            QueueActions::JumpToCurrent => {
                if self.jump_to_current(current) {
                    QueueOutcome::Nothing
                } else {
                    QueueOutcome::NoSongPlaying
                }
            },
            QueueActions::Shuffle => QueueOutcome::Commands(self.shuffle()),
            QueueActions::Unused => QueueOutcome::Nothing,
        }
    }

    /// Moves the marked songs one place (or, with none marked, the song
    /// under the cursor); the marks and the cursor move with them. Nothing
    /// happens in an empty queue, or when a marked song is already at the
    /// end it moves towards.
    pub fn move_songs(&mut self, up: bool) -> (r: Vec<QueueCommand>)
        requires
            old(self).well_formed(),
        ensures
            final(self).well_formed(),
            old(self).items@.len() == 0 ==> r@.len() == 0 && *final(self) == *old(self),
            old(self).items@.len() > 0 && old(self).marked@.len() > 0 && up ==> if old(
                self,
            ).marked@[0] == 0 {
                r@.len() == 0 && *final(self) == *old(self)
            } else {
                &&& final(self).items@ == blocks_up(old(self).items@, runs(old(self).marked@))
                &&& r@ == move_up_commands(runs(old(self).marked@))
                &&& final(self).marked@ == shifted(old(self).marked@, -1)
                &&& final(self).selected == Some((old(self).marked@[0] - 1) as usize)
            },
            old(self).items@.len() > 0 && old(self).marked@.len() > 0 && !up ==> if old(
                self,
            ).marked@.last() + 1 == old(self).items@.len() {
                r@.len() == 0 && *final(self) == *old(self)
            } else {
                &&& final(self).items@ == blocks_down(old(self).items@, runs(old(self).marked@))
                &&& r@ == move_down_commands(runs(old(self).marked@))
                &&& final(self).marked@ == shifted(old(self).marked@, 1)
                &&& final(self).selected == Some((old(self).marked@.last() + 1) as usize)
            },
            old(self).items@.len() > 0 && old(self).marked@.len() == 0 ==> final(self).marked@.len()
                == 0 && match old(self).selected {
                None => r@.len() == 0 && *final(self) == *old(self),
                Some(i) => {
                    let n = old(self).items@.len() as int;
                    let to: int = if up {
                        if i == 0 {
                            0
                        } else {
                            i - 1
                        }
                    } else if i + 1 < n {
                        i + 1
                    } else {
                        i as int
                    };
                    &&& r@ == seq![QueueCommand::MoveId { id: old(self).items@[i as int].id, to: to as usize }]
                    &&& final(self).selected == Some(to as usize)
                    &&& final(self).items@ == if to == i {
                        old(self).items@
                    } else if up {
                        rotate_left(old(self).items@, to, i as int)
                    } else {
                        rotate_left(old(self).items@, i as int, to)
                    }
                },
            },
    {
        if self.items.len() == 0 {
            return Vec::new();
        }
        if self.marked.len() > 0 {
            if up {
                if self.marked[0] == 0 {
                    return Vec::new();
                }
                self.move_marked_up()
            } else {
                let last = self.marked[self.marked.len() - 1];
                if last + 1 == self.items.len() {
                    return Vec::new();
                }
                self.move_marked_down()
            }
        } else {
            let c = if up {
                self.move_selected_up()
            } else {
                self.move_selected_down()
            };
            match c {
                Some(c) => {
                    let v = vec![c];
                    assert(v@ =~= seq![c]);
                    v
                },
                None => Vec::new(),
            }
        }
    }
}

/// The row the cursor moves to going down from `selected` in `n` rows:
/// the next row, or past the last row the first one when wrapping, or the
/// last row otherwise; with no cursor, the first row.
pub open spec fn row_after(selected: Option<usize>, n: int, wrap: bool) -> Option<usize> {
    if n == 0 {
        selected
    } else {
        match selected {
            None => Some(0usize),
            Some(i) => if i + 1 < n {
                Some((i + 1) as usize)
            } else if wrap {
                Some(0usize)
            } else {
                Some(i)
            },
        }
    }
}

/// The row the cursor moves to going up from `selected` in `n` rows: the
/// previous row, or before the first row the last one when wrapping, or the
/// first row otherwise; with no cursor, the first row.
pub open spec fn row_before(selected: Option<usize>, n: int, wrap: bool) -> Option<usize> {
    if n == 0 {
        selected
    } else {
        match selected {
            None => Some(0usize),
            Some(i) => if i > 0 {
                Some((i - 1) as usize)
            } else if wrap {
                Some((n - 1) as usize)
            } else {
                Some(0usize)
            },
        }
    }
}

impl QueueState {
    /// Moves the cursor one row down.
    pub fn select_next(&mut self, wrap: bool)
        requires
            old(self).well_formed(),
        ensures
            final(self).well_formed(),
            final(self).items@ == old(self).items@,
            final(self).marked@ == old(self).marked@,
            final(self).selected == row_after(old(self).selected, old(self).items@.len() as int, wrap),
    {
        let n = self.items.len();
        if n == 0 {
            return ;
        }
        self.selected = match self.selected {
            None => Some(0),
            Some(i) => if i < n - 1 {
                Some(i + 1)
            } else if wrap {
                Some(0)
            } else {
                Some(i)
            },
        };
    }

    /// Moves the cursor one row up.
    pub fn select_prev(&mut self, wrap: bool)
        requires
            old(self).well_formed(),
        ensures
            final(self).well_formed(),
            final(self).items@ == old(self).items@,
            final(self).marked@ == old(self).marked@,
            final(self).selected == row_before(old(self).selected, old(self).items@.len() as int, wrap),
    {
        let n = self.items.len();
        if n == 0 {
            return ;
        }
        self.selected = match self.selected {
            None => Some(0),
            Some(i) => if i > 0 {
                Some(i - 1)
            } else if wrap {
                Some(n - 1)
            } else {
                Some(0)
            },
        };
    }

    /// Puts the cursor on the first row, or the last, when there are rows.
    pub fn select_end(&mut self, last: bool)
        requires
            old(self).well_formed(),
        ensures
            final(self).well_formed(),
            final(self).items@ == old(self).items@,
            final(self).marked@ == old(self).marked@,
            final(self).selected == if old(self).items@.len() == 0 {
                old(self).selected
            } else if last {
                Some((old(self).items@.len() - 1) as usize)
            } else {
                Some(0usize)
            },
    {
        let n = self.items.len();
        if n == 0 {
            return ;
        }
        self.selected = if last {
            Some(n - 1)
        } else {
            Some(0)
        };
    }
}

/// The row `k` places after `s`, going round, matches.
pub open spec fn hit_after(hits: Seq<bool>, s: int, k: int) -> bool {
    hits[(s + k) % (hits.len() as int)]
}

/// The row `k` places before `s`, going round, matches.
pub open spec fn hit_before(hits: Seq<bool>, s: int, k: int) -> bool {
    hits[(s + hits.len() - k) % (hits.len() as int)]
}

impl QueueState {
    /// Moves the cursor to the next matching row after it, going round the
    /// queue (the row under the cursor is not considered); `hits` tells
    /// which rows match the filter. Tells whether one was found.
    pub fn jump_forward(&mut self, hits: &Vec<bool>) -> (found: bool)
        requires
            old(self).well_formed(),
            hits@.len() == old(self).items@.len(),
        ensures
            final(self).well_formed(),
            final(self).items@ == old(self).items@,
            final(self).marked@ == old(self).marked@,
            match old(self).selected {
                None => !found && final(self).selected == old(self).selected,
                Some(s) => if found {
                    exists|k: int| 1 <= k < hits@.len() && #[trigger] hit_after(hits@, s as int, k)
                        && final(self).selected == Some(((s + k) % (hits@.len() as int)) as usize)
                        && forall|j: int| 1 <= j < k ==> !#[trigger] hit_after(hits@, s as int, j)
                } else {
                    final(self).selected == old(self).selected && forall|j: int| 1 <= j < hits@.len() ==> !#[trigger] hit_after(hits@, s as int, j)
                },
            },
    {
        let s = match self.selected {
            Some(s) => s,
            None => {
                return false;
            },
        };
        let n = hits.len();
        let mut k: usize = 1;
        while k < n
            invariant
                n == hits@.len(),
                n == self.items@.len(),
                s < n,
                1 <= k <= n,
                self.well_formed(),
                self.selected == Some(s),
                self.items@ == old(self).items@,
                self.marked@ == old(self).marked@,
                old(self).selected == Some(s),
                forall|j: int| 1 <= j < k ==> !#[trigger] hit_after(hits@, s as int, j),
            decreases n - k,
        {
            let idx = if k < n - s {
                s + k
            } else {
                k - (n - s)
            };
            assert(idx == (s + k) % (n as int)) by (nonlinear_arith)
                requires
                    idx == (if k < n - s { s + k } else { k - (n - s) }),
                    s < n,
                    k < n,
            ;
            if hits[idx] {
                assert(hit_after(hits@, s as int, k as int));
                self.selected = Some(idx);
                return true;
            }
            assert(!hit_after(hits@, s as int, k as int));
            k = k + 1;
        }
        false
    }

    /// Moves the cursor to the nearest matching row before it, going round
    /// the queue, the row under the cursor being tried last; `hits` tells
    /// which rows match the filter. Tells whether one was found.
    pub fn jump_back(&mut self, hits: &Vec<bool>) -> (found: bool)
        requires
            old(self).well_formed(),
            hits@.len() == old(self).items@.len(),
        ensures
            final(self).well_formed(),
            final(self).items@ == old(self).items@,
            final(self).marked@ == old(self).marked@,
            match old(self).selected {
                None => !found && final(self).selected == old(self).selected,
                Some(s) => if found {
                    exists|k: int| 1 <= k <= hits@.len() && #[trigger] hit_before(hits@, s as int, k)
                        && final(self).selected == Some(((s + hits@.len() - k) % (hits@.len() as int)) as usize)
                        && forall|j: int| 1 <= j < k ==> !#[trigger] hit_before(hits@, s as int, j)
                } else {
                    final(self).selected == old(self).selected && forall|j: int| 1 <= j <= hits@.len() ==> !#[trigger] hit_before(hits@, s as int, j)
                },
            },
    {
        let s = match self.selected {
            Some(s) => s,
            None => {
                return false;
            },
        };
        let n = hits.len();
        for j in 0..n
            invariant
                n == hits@.len(),
                n == self.items@.len(),
                s < n,
                self.well_formed(),
                self.selected == Some(s),
                self.items@ == old(self).items@,
                self.marked@ == old(self).marked@,
                old(self).selected == Some(s),
                forall|q: int| 1 <= q < j + 1 ==> !#[trigger] hit_before(hits@, s as int, q),
        {
            let k = j + 1;
            let idx = if k <= s {
                s - k
            } else {
                s + (n - k)
            };
            assert(idx == (s + n - k) % (n as int)) by (nonlinear_arith)
                requires
                    idx == (if k <= s { s - k } else { s + (n - k) }),
                    s < n,
                    1 <= k <= n,
            ;
            if hits[idx] {
                assert(hit_before(hits@, s as int, k as int));
                self.selected = Some(idx);
                return true;
            }
            assert(!hit_before(hits@, s as int, k as int));
        }
        false
    }
}

/// Which rows match a filter: the song's text in one of the formats
/// contains it, ignoring case; `stickers` holds each row's stickers.
pub fn matching_rows(
    items: &Vec<Song>,
    formats: &Vec<crate::property::Property>,
    filter: &str,
    stickers: &Vec<Option<crate::property::Stickers>>,
) -> (r: Vec<bool>)
    requires
        stickers@.len() == items@.len(),
        crate::property::any_shows_position(formats@) ==> forall|i: int|
            0 <= i < items@.len() ==> !crate::song::position_overflows(&#[trigger] items@[i]),
    ensures
        r@.len() == items@.len(),
        forall|i: int| 0 <= i < items@.len() ==> #[trigger] r@[i] == exists|f: int|
            0 <= f < formats@.len() && crate::property::format_matches(
                &items@[i],
                &formats@[f],
                filter@,
                match &stickers@[i] {
                    Some(st) => Some(st),
                    None => None,
                },
            ) == Some(true),
{
    let mut r: Vec<bool> = Vec::new();
    for i in 0..items.len()
        invariant
            stickers@.len() == items@.len(),
            crate::property::any_shows_position(formats@) ==> forall|i: int|
                0 <= i < items@.len() ==> !crate::song::position_overflows(&#[trigger] items@[i]),
            r@.len() == i,
            forall|q: int| 0 <= q < i ==> #[trigger] r@[q] == exists|f: int|
                0 <= f < formats@.len() && crate::property::format_matches(
                    &items@[q],
                    &formats@[f],
                    filter@,
                    match &stickers@[q] {
                        Some(st) => Some(st),
                        None => None,
                    },
                ) == Some(true),
    {
        let st = match &stickers[i] {
            Some(st) => Some(st),
            None => None,
        };
        proof {
            assert forall|f: int| 0 <= f < formats@.len() implies crate::property::formattable(
                #[trigger] &formats@[f],
                Some(&items@[i as int]),
            ) by {
                if crate::property::shows_position(&formats@[f]) {
                    crate::property::lemma_member_shows(formats@, f);
                    assert(!crate::song::position_overflows(&items@[i as int]));
                }
            }
        }
        let m = items[i].matches(formats, filter, st);
        r.push(m);
    }
    r
}

/// What an entry of the queue's context menu does.
pub enum QueueMenuAction {
    /// Play the song with this id, when a song is under the cursor.
    Play(Option<u32>),
    /// Show the tags of the song at this row, when a song is under the cursor.
    ShowInfo(Option<usize>),
    /// Ask which playlist, and add these files (the whole queue) to it.
    AddQueueToPlaylist(Vec<String>),
    /// Ask for a name and save the queue as a playlist.
    SaveQueueAsPlaylist,
    /// Remove the song with this id, when a song is under the cursor.
    Remove(Option<u32>),
    /// Clear the queue.
    ClearQueue,
    /// Close the menu.
    Cancel,
}

/// An entry of the queue's context menu.
pub struct QueueMenuItem {
    pub label: String,
    pub action: QueueMenuAction,
}

/// The labels of the queue's context menu, section by section.
pub open spec fn queue_menu_labels() -> Seq<Seq<Seq<char>>> {
    seq![
        seq!["Play"@, "Show info"@],
        seq!["Add queue to playlist"@, "Save queue as playlist"@],
        seq!["Remove"@, "Clear queue"@],
        seq!["Cancel"@],
    ]
}

fn menu_item(label: &str, action: QueueMenuAction) -> (r: QueueMenuItem)
    ensures
        r.label@ == label@,
        r.action == action,
{
    QueueMenuItem { label: label.to_string(), action }
}

impl QueueState {
    /// The files of every song of the queue, in order.
    pub fn all_files(&self) -> (r: Vec<String>)
        ensures
            r@.len() == self.items@.len(),
            forall|k: int| 0 <= k < r@.len() ==> #[trigger] r@[k]@ == self.items@[k].file@,
    {
        let mut r: Vec<String> = Vec::new();
        for k in 0..self.items.len()
            invariant
                r@.len() == k,
                forall|q: int| 0 <= q < k ==> #[trigger] r@[q]@ == self.items@[q].file@,
        {
            r.push(self.items[k].file.clone());
        }
        r
    }

    /// The queue's context menu, in sections: playing or showing the song
    /// under the cursor; adding the queue to a playlist or saving it as one;
    /// removing the song under the cursor or clearing the queue; cancelling.
    pub fn context_menu(&self) -> (r: Vec<Vec<QueueMenuItem>>)
        requires
            self.well_formed(),
        ensures
            r@.len() == queue_menu_labels().len(),
            forall|s: int| 0 <= s < r@.len() ==> (#[trigger] r@[s])@.len() == queue_menu_labels()[s].len(),
            forall|s: int, k: int| 0 <= s < r@.len() && 0 <= k < r@[s]@.len() ==> (#[trigger] r@[s]@[k]).label@ == queue_menu_labels()[s][k],
            r@[0]@[0].action == QueueMenuAction::Play(match self.selected {
                Some(i) => Some(self.items@[i as int].id),
                None => None,
            }),
            r@[0]@[1].action == QueueMenuAction::ShowInfo(self.selected),
            r@[1]@[0].action matches QueueMenuAction::AddQueueToPlaylist(files) && files@.len() == self.items@.len()
                && forall|k: int| 0 <= k < files@.len() ==> #[trigger] files@[k]@ == self.items@[k].file@,
            r@[1]@[1].action is SaveQueueAsPlaylist,
            r@[2]@[0].action == QueueMenuAction::Remove(match self.selected {
                Some(i) => Some(self.items@[i as int].id),
                None => None,
            }),
            r@[2]@[1].action is ClearQueue,
            r@[3]@[0].action is Cancel,
    {
        let id = match self.selected {
            Some(i) => Some(self.items[i].id),
            None => None,
        };
        let first = vec![menu_item("Play", QueueMenuAction::Play(id)), menu_item("Show info", QueueMenuAction::ShowInfo(self.selected))];
        let second = vec![
            menu_item("Add queue to playlist", QueueMenuAction::AddQueueToPlaylist(self.all_files())),
            menu_item("Save queue as playlist", QueueMenuAction::SaveQueueAsPlaylist),
        ];
        let third = vec![menu_item("Remove", QueueMenuAction::Remove(id)), menu_item("Clear queue", QueueMenuAction::ClearQueue)];
        let fourth = vec![menu_item("Cancel", QueueMenuAction::Cancel)];
        let r = vec![first, second, third, fourth];
        proof {
            let labels = queue_menu_labels();
            assert forall|s: int, k: int| 0 <= s < r@.len() && 0 <= k < r@[s]@.len() implies (#[trigger] r@[s]@[k]).label@ == labels[s][k] by {}
        }
        r
    }
}

/// How a song's file is named when it is added to a stored playlist: an
/// absolute path (a local file outside the music directory) as a `file://`
/// URI, any other file as it is.
pub open spec fn playlist_uri_of(file: Seq<char>) -> Seq<char> {
    if file.len() > 0 && file[0] == '/' {
        "file://"@ + file
    } else {
        file
    }
}

/// The name under which `file` is added to a stored playlist.
pub fn playlist_uri(file: &str) -> (r: String)
    ensures
        r@ == playlist_uri_of(file@),
{
    let n = file.unicode_len();
    if n > 0 && file.get_char(0) == '/' {
        let mut r = String::from_str("file://");
        r.append(file);
        r
    } else {
        file.to_string()
    }
}

/// What a mouse event over the queue's table leads to.
#[derive(Clone, Copy, PartialEq, Eq, Structural, Debug)]
pub enum QueueMouseOutcome {
    Nothing,
    /// The cursor moved; draw again.
    Redraw,
    /// Play the song with this id.
    Play(u32),
    /// Delete the song with this id from the queue.
    Delete(u32),
    /// Scroll the table down (or up) by the configured amount.
    Scroll { down: bool },
    /// Open the context menu (the cursor was moved to the row clicked, when
    /// there is a song there).
    ContextMenu,
}

impl QueueState {
    /// Handles a mouse event at `pos` over the table drawn in `table`,
    /// whose first drawn row shows song `first_visible`: a click puts the
    /// cursor on the song clicked, a double click plays it, a middle click
    /// deletes it, the wheel scrolls, and a right click selects it and
    /// opens the context menu. Events outside the table do nothing.
    pub fn handle_mouse(&mut self, kind: crate::search::MouseKind, pos: crate::geometry::Position, table: crate::geometry::Rect, first_visible: usize) -> (r: QueueMouseOutcome)
        requires
            old(self).well_formed(),
            first_visible + 0x10000 <= usize::MAX,
        ensures
            final(self).well_formed(),
            final(self).items@ == old(self).items@,
            final(self).marked@ == old(self).marked@,
            ({
                let row: int = if pos.y >= table.y { pos.y - table.y } else { 0 };
                let hit = crate::search::result_at_row(first_visible as int, row, old(self).items@.len() as int);
                if !table.contains_spec(pos) {
                    r is Nothing && final(self).selected == old(self).selected
                } else {
                    match kind {
                        crate::search::MouseKind::LeftClick => match hit {
                            Some(i) => r is Redraw && final(self).selected == Some(i),
                            None => r is Nothing && final(self).selected == old(self).selected,
                        },
                        crate::search::MouseKind::DoubleClick => final(self).selected == old(self).selected && match hit {
                            Some(i) => r == QueueMouseOutcome::Play(old(self).items@[i as int].id),
                            None => r is Nothing,
                        },
                        crate::search::MouseKind::MiddleClick => final(self).selected == old(self).selected && match hit {
                            Some(i) => r == QueueMouseOutcome::Delete(old(self).items@[i as int].id),
                            None => r is Nothing,
                        },
                        crate::search::MouseKind::ScrollDown => r == QueueMouseOutcome::Scroll { down: true } && final(self).selected == old(self).selected,
                        crate::search::MouseKind::ScrollUp => r == QueueMouseOutcome::Scroll { down: false } && final(self).selected == old(self).selected,
                        crate::search::MouseKind::RightClick => r is ContextMenu && final(self).selected == match hit {
                            Some(i) => Some(i),
                            None => old(self).selected,
                        },
                        crate::search::MouseKind::Other => r is Nothing && final(self).selected == old(self).selected,
                    }
                }
            }),
    {
        if !table.contains(pos) {
            return QueueMouseOutcome::Nothing;
        }
        let row: usize = if pos.y >= table.y {
            (pos.y - table.y) as usize
        } else {
            0
        };
        let hit: Option<usize> = if first_visible + row < self.items.len() {
            Some(first_visible + row)
        } else {
            None
        };
        match kind {
            crate::search::MouseKind::LeftClick => match hit {
                Some(i) => {
                    self.selected = Some(i);
                    QueueMouseOutcome::Redraw
                },
                None => QueueMouseOutcome::Nothing,
            },
            crate::search::MouseKind::DoubleClick => match hit {
                Some(i) => QueueMouseOutcome::Play(self.items[i].id),
                None => QueueMouseOutcome::Nothing,
            },
            crate::search::MouseKind::MiddleClick => match hit {
                Some(i) => QueueMouseOutcome::Delete(self.items[i].id),
                None => QueueMouseOutcome::Nothing,
            },
            crate::search::MouseKind::ScrollDown => QueueMouseOutcome::Scroll { down: true },
            crate::search::MouseKind::ScrollUp => QueueMouseOutcome::Scroll { down: false },
            crate::search::MouseKind::RightClick => {
                if let Some(i) = hit {
                    self.selected = Some(i);
                }
                QueueMouseOutcome::ContextMenu
            },
            crate::search::MouseKind::Other => QueueMouseOutcome::Nothing,
        }
    }
}

/// How the chosen songs of the queue are rated.
#[derive(Clone, Copy, PartialEq, Eq, Structural, Debug)]
pub enum RateKind {
    /// A rating value.
    Value(u8),
    Like,
    Neutral,
    Dislike,
}

/// A sticker to set on files.
pub struct StickerUpdate {
    pub name: crate::search::StickerName,
    pub value: String,
    pub files: Vec<String>,
}

impl QueueState {
    /// The sticker that rating the chosen songs (the marked ones, or the one
    /// under the cursor) sets: the rating as a number, or the like sticker
    /// at 2, 1 or 0.
    pub fn rate(&self, kind: RateKind) -> (r: StickerUpdate)
        requires
            self.well_formed(),
        ensures
            views(r.files@) == crate::search::chosen_files(*self, false),
            match kind {
                RateKind::Value(v) => r.name == crate::search::StickerName::Rating && r.value@ == crate::text::decimal(v as nat),
                RateKind::Like => r.name == crate::search::StickerName::Like && r.value@ == "2"@,
                RateKind::Neutral => r.name == crate::search::StickerName::Like && r.value@ == "1"@,
                RateKind::Dislike => r.name == crate::search::StickerName::Like && r.value@ == "0"@,
            },
    {
        let (_, files) = crate::search::results_enqueue(self, false);
        proof {
            reveal_strlit("2");
            reveal_strlit("1");
            reveal_strlit("0");
        }
        match kind {
            RateKind::Value(v) => StickerUpdate {
                name: crate::search::StickerName::Rating,
                value: crate::search::rating_text(v),
                files,
            },
            RateKind::Like => StickerUpdate { name: crate::search::StickerName::Like, value: String::from_str("2"), files },
            RateKind::Neutral => StickerUpdate { name: crate::search::StickerName::Like, value: String::from_str("1"), files },
            RateKind::Dislike => StickerUpdate { name: crate::search::StickerName::Like, value: String::from_str("0"), files },
        }
    }

    /// The files that saving to a playlist (or deleting from one) takes:
    /// every song with `all`, or else the marked ones, or else the one under
    /// the cursor; none when that leaves nothing.
    pub fn playlist_files(&self, all: bool) -> (r: Option<Vec<String>>)
        requires
            self.well_formed(),
        ensures
            crate::search::chosen_files(*self, all).len() == 0 ==> r is None,
            crate::search::chosen_files(*self, all).len() > 0 ==> (r matches Some(files) && views(files@) == crate::search::chosen_files(*self, all)),
    {
        let (_, files) = crate::search::results_enqueue(self, all);
        if files.len() == 0 {
            None
        } else {
            Some(files)
        }
    }
}


/// How a row of the queue table is drawn.
pub struct RowLook {
    /// Drawn in the highlighted style: the song playing, or one that
    /// matches the active filter.
    pub highlighted: bool,
    /// Underlined: the last song of an album, when albums are separated by
    /// underlining, unless it is the last row.
    pub underlined: bool,
    /// How many characters each column's text may take: the column's
    /// width, less the marker's length in the first column of a marked row.
    pub text_lens: Vec<usize>,
}

/// `a - b`, or zero when that is negative.
pub open spec fn sub_or_zero(a: int, b: int) -> int {
    if a >= b {
        a - b
    } else {
        0
    }
}

/// How row `idx` of a queue of `len` songs is drawn, its columns `widths`
/// wide: `current` says it holds the song playing, `matches_filter` that
/// its song matches the filter (only counted while filtering),
/// `ends_album` that its song is the last of an album.
pub fn row_look(
    idx: usize,
    len: usize,
    current: bool,
    marked: bool,
    filter_active: bool,
    matches_filter: bool,
    ends_album: bool,
    underline_albums: bool,
    widths: &Vec<u16>,
    marker_len: usize,
) -> (r: RowLook)
    ensures
        r.highlighted == (current || (filter_active && matches_filter)),
        r.underlined == (ends_album && underline_albums && idx != sub_or_zero(len as int, 1)),
        r.text_lens@.len() == widths@.len(),
        forall|i: int|
            0 <= i < widths@.len() ==> #[trigger] r.text_lens@[i] == if marked && i == 0 {
                sub_or_zero(widths@[i] as int, marker_len as int)
            } else {
                widths@[i] as int
            },
{
    let last: usize = if len >= 1 {
        len - 1
    } else {
        0
    };
    let mut text_lens: Vec<usize> = Vec::new();
    for i in 0..widths.len()
        invariant
            text_lens@.len() == i,
            forall|j: int|
                0 <= j < i ==> #[trigger] text_lens@[j] == if marked && j == 0 {
                    sub_or_zero(widths@[j] as int, marker_len as int)
                } else {
                    widths@[j] as int
                },
    {
        let w: usize = widths[i] as usize;
        let n: usize = if marked && i == 0 {
            if w >= marker_len {
                w - marker_len
            } else {
                0
            }
        } else {
            w
        };
        text_lens.push(n);
    }
    RowLook {
        highlighted: current || (filter_active && matches_filter),
        underlined: ends_album && underline_albums && idx != last,
        text_lens,
    }
}


/// Moving the cursor down goes to the next row whenever there is one;
/// from the last row it wraps to the first or stays; with no cursor yet it
/// lands on the first row of a non-empty list.
pub proof fn law_moving_down_goes_to_the_next_row(i: usize, n: int, wrap: bool)
    requires
        i < n,
    ensures
        i + 1 < n ==> row_after(Some(i), n, wrap) == Some((i + 1) as usize),
        i + 1 == n ==> row_after(Some(i), n, wrap) == Some(if wrap { 0usize } else { i }),
        row_after(None, n, wrap) == Some(0usize),
{
}

/// Moving the cursor up goes to the previous row whenever there is one;
/// from the first row it wraps to the last or stays; with no cursor yet it
/// lands on the first row of a non-empty list.
pub proof fn law_moving_up_goes_to_the_previous_row(i: usize, n: int, wrap: bool)
    requires
        i < n,
    ensures
        i > 0 ==> row_before(Some(i), n, wrap) == Some((i - 1) as usize),
        i == 0 ==> row_before(Some(i), n, wrap) == Some(if wrap { (n - 1) as usize } else { 0usize }),
        row_before(None, n, wrap) == Some(0usize),
{
}

/// Moving down and then up, without wrapping, comes back to the row left
/// whenever it has a row below it.
pub proof fn law_down_then_up_returns(i: usize, n: int)
    requires
        i + 1 < n <= usize::MAX,
    ensures
        row_before(row_after(Some(i), n, false), n, false) == Some(i),
{
    let j = (i + 1) as usize;
    assert(row_after(Some(i), n, false) == Some(j));
    assert(j > 0);
    assert((j - 1) as usize == i);
}

} // verus!
