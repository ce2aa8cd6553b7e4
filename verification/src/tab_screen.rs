//! A tab made of several panes, and how focus moves between them: with the
//! keyboard to the neighbouring pane in a direction, with the mouse to the
//! pane under the cursor.
use vstd::prelude::*;

use crate::geometry::{Position, Rect};
use crate::seq_lemmas::{lemma_filter_map_commute, lemma_filter_push};
use itertools::Itertools;

verus! {

/// What the tab knows of one of its panes once it has been laid out.
#[derive(Clone, Copy)]
pub struct PaneData {
    /// The area inside the pane's border.
    pub area: Rect,
    /// The area including the border.
    pub block_area: Rect,
    /// The pane can take focus.
    pub focusable: bool,
    /// When the pane last had focus; larger is more recent.
    pub active: u64,
}

impl PaneData {
    /// Data for a pane that has not been laid out yet.
    pub fn new(focusable: bool, now: u64) -> (r: PaneData)
        ensures
            r.focusable == focusable,
            r.active == now,
            r.area == (Rect { x: 0, y: 0, width: 0, height: 0 }),
            r.block_area == (Rect { x: 0, y: 0, width: 0, height: 0 }),
    {
        PaneData {
            focusable,
            active: now,
            area: Rect { x: 0, y: 0, width: 0, height: 0 },
            block_area: Rect { x: 0, y: 0, width: 0, height: 0 },
        }
    }
}

/// A direction in which focus moves.
#[derive(Clone, Copy, PartialEq, Eq, Structural, Debug)]
pub enum FocusDirection {
    Up,
    Down,
    Left,
    Right,
}

/// A tab: its configured panes and their layout.
pub struct TabScreen {
    /// The focused pane.
    pub focused: Option<u64>,
    /// The configured panes in layout order: their ids and whether each can
    /// take focus.
    pub panes: Vec<(u64, bool)>,
    /// The layout of each pane that has been shown, by pane id.
    pub pane_data: Vec<(u64, PaneData)>,
    pub initialized: bool,
}

/// `d` touches `focused` on the side `dir`, sharing a column (up, down) or a
/// row (left, right), and can take focus.
pub open spec fn is_adjacent(dir: FocusDirection, d: PaneData, focused: Rect) -> bool {
    d.focusable && match dir {
        FocusDirection::Up => focused.top() == d.block_area.bottom() && d.block_area.overlaps_in_x(
            focused,
        ),
        FocusDirection::Down => focused.bottom() == d.block_area.top()
            && d.block_area.overlaps_in_x(focused),
        FocusDirection::Left => focused.left() == d.block_area.right()
            && d.block_area.overlaps_in_y(focused),
        FocusDirection::Right => focused.right() == d.block_area.left()
            && d.block_area.overlaps_in_y(focused),
    }
}

/// `d` lies beyond `focused` on the side `dir`, not touching it, sharing a
/// column or a row, and can take focus.
pub open spec fn is_beyond(dir: FocusDirection, d: PaneData, focused: Rect) -> bool {
    d.focusable && match dir {
        FocusDirection::Up => focused.top() > d.block_area.bottom() && d.block_area.overlaps_in_x(
            focused,
        ),
        FocusDirection::Down => focused.bottom() < d.block_area.top()
            && d.block_area.overlaps_in_x(focused),
        FocusDirection::Left => focused.left() > d.block_area.right()
            && d.block_area.overlaps_in_y(focused),
        FocusDirection::Right => focused.right() < d.block_area.left()
            && d.block_area.overlaps_in_y(focused),
    }
}

/// The edge of a pane that faces the focused pane: its bottom above, its
/// top below, its left edge on both sides.
pub open spec fn facing_edge(dir: FocusDirection, d: PaneData) -> u16 {
    match dir {
        FocusDirection::Up => d.area.bottom(),
        FocusDirection::Down => d.area.top(),
        FocusDirection::Left => d.area.left(),
        FocusDirection::Right => d.area.left(),
    }
}

/// Above and to the left the nearest pane has the largest facing edge;
/// below and to the right the smallest.
pub open spec fn nearest_is_largest(dir: FocusDirection) -> bool {
    dir == FocusDirection::Up || dir == FocusDirection::Left
}

/// The largest first component.
pub open spec fn max_first<T>(s: Seq<(u16, T)>) -> u16
    decreases s.len(),
{
    if s.len() == 0 {
        0
    } else {
        let m = max_first(s.drop_last());
        if s.len() == 1 || s.last().0 > m {
            s.last().0
        } else {
            m
        }
    }
}

/// The smallest first component.
pub open spec fn min_first<T>(s: Seq<(u16, T)>) -> u16
    decreases s.len(),
{
    if s.len() == 0 {
        0
    } else {
        let m = min_first(s.drop_last());
        if s.len() == 1 || s.last().0 < m {
            s.last().0
        } else {
            m
        }
    }
}

/// Trusted: `Itertools::max_set_by_key` keyed by the first component
/// returns, in their original order, the elements whose key equals the
/// largest key (nothing for no elements).
#[verifier::external_body]
fn max_set_by_first<T>(items: Vec<(u16, T)>) -> (r: Vec<(u16, T)>)
    ensures
        r@ == items@.filter(|p: (u16, T)| p.0 == max_first(items@)),
{
    items.into_iter().max_set_by_key(|p| p.0)
}

/// Trusted: `Itertools::min_set_by_key` keyed by the first component
/// returns, in their original order, the elements whose key equals the
/// smallest key (nothing for no elements).
#[verifier::external_body]
fn min_set_by_first<T>(items: Vec<(u16, T)>) -> (r: Vec<(u16, T)>)
    ensures
        r@ == items@.filter(|p: (u16, T)| p.0 == min_first(items@)),
{
    items.into_iter().min_set_by_key(|p| p.0)
}

/// The panes touching `focused` on the side `dir`, in the order of the
/// pane data.
pub open spec fn adjacent_panes(
    data: Seq<(u64, PaneData)>,
    dir: FocusDirection,
    focused: Rect,
) -> Seq<(u64, PaneData)> {
    data.filter(|e: (u64, PaneData)| is_adjacent(dir, e.1, focused))
}

/// The panes beyond `focused` on the side `dir`.
pub open spec fn beyond_panes(
    data: Seq<(u64, PaneData)>,
    dir: FocusDirection,
    focused: Rect,
) -> Seq<(u64, PaneData)> {
    data.filter(|e: (u64, PaneData)| is_beyond(dir, e.1, focused))
}

/// The nearest facing edge among `c`.
pub open spec fn nearest_edge(c: Seq<(u64, PaneData)>, dir: FocusDirection) -> u16 {
    let keyed = c.map_values(|e: (u64, PaneData)| (facing_edge(dir, e.1), e));
    if nearest_is_largest(dir) {
        max_first(keyed)
    } else {
        min_first(keyed)
    }
}

/// The panes beyond `focused` on the side `dir` whose facing edge is the
/// nearest one.
pub open spec fn closest_panes(
    data: Seq<(u64, PaneData)>,
    dir: FocusDirection,
    focused: Rect,
) -> Seq<(u64, PaneData)> {
    let c = beyond_panes(data, dir, focused);
    c.filter(|e: (u64, PaneData)| facing_edge(dir, e.1) == nearest_edge(c, dir))
}

/// The elements of `data` satisfying `keep`.
fn filter_pane_data(
    data: &Vec<(u64, PaneData)>,
    dir: FocusDirection,
    focused: Rect,
    adjacent: bool,
) -> (r: Vec<(u64, PaneData)>)
    ensures
        adjacent ==> r@ == adjacent_panes(data@, dir, focused),
        !adjacent ==> r@ == beyond_panes(data@, dir, focused),
{
    let ghost pred = if adjacent {
        |e: (u64, PaneData)| is_adjacent(dir, e.1, focused)
    } else {
        |e: (u64, PaneData)| is_beyond(dir, e.1, focused)
    };
    let mut r: Vec<(u64, PaneData)> = Vec::new();
    let n = data.len();
    assert(data@.take(0) =~= Seq::<(u64, PaneData)>::empty());
    proof {
        reveal(Seq::filter);
    }
    for i in 0..n
        invariant
            n == data@.len(),
            pred == (if adjacent {
                |e: (u64, PaneData)| is_adjacent(dir, e.1, focused)
            } else {
                |e: (u64, PaneData)| is_beyond(dir, e.1, focused)
            }),
            r@ == data@.take(i as int).filter(pred),
    {
        let e = data[i];
        let d = e.1;
        let keep = d.focusable && if adjacent {
            match dir {
                FocusDirection::Up => focused.top() == d.block_area.bottom()
                    && d.block_area.overlaps_in_x(focused),
                FocusDirection::Down => focused.bottom() == d.block_area.top()
                    && d.block_area.overlaps_in_x(focused),
                FocusDirection::Left => focused.left() == d.block_area.right()
                    && d.block_area.overlaps_in_y(focused),
                FocusDirection::Right => focused.right() == d.block_area.left()
                    && d.block_area.overlaps_in_y(focused),
            }
        } else {
            match dir {
                FocusDirection::Up => focused.top() > d.block_area.bottom()
                    && d.block_area.overlaps_in_x(focused),
                FocusDirection::Down => focused.bottom() < d.block_area.top()
                    && d.block_area.overlaps_in_x(focused),
                FocusDirection::Left => focused.left() > d.block_area.right()
                    && d.block_area.overlaps_in_y(focused),
                FocusDirection::Right => focused.right() < d.block_area.left()
                    && d.block_area.overlaps_in_y(focused),
            }
        };
        assert(keep == pred(e));
        proof {
            lemma_filter_push(data@.take(i as int), pred, e);
            assert(data@.take(i as int).push(e) =~= data@.take(i + 1));
        }
        if keep {
            r.push(e);
        }
    }
    assert(data@.take(n as int) =~= data@);
    r
}

/// The facing edge of a pane, computed.
fn facing_edge_exec(dir: FocusDirection, d: PaneData) -> (r: u16)
    ensures
        r == facing_edge(dir, d),
{
    match dir {
        FocusDirection::Up => d.area.bottom(),
        FocusDirection::Down => d.area.top(),
        FocusDirection::Left => d.area.left(),
        FocusDirection::Right => d.area.left(),
    }
}

/// The panes among `c` whose facing edge is the nearest.
fn nearest_of(c: Vec<(u64, PaneData)>, dir: FocusDirection) -> (r: Vec<(u64, PaneData)>)
    ensures
        r@ == c@.filter(|e: (u64, PaneData)| facing_edge(dir, e.1) == nearest_edge(c@, dir)),
{
    let ghost f = |e: (u64, PaneData)| (facing_edge(dir, e.1), e);
    let mut keyed: Vec<(u16, (u64, PaneData))> = Vec::new();
    let n = c.len();
    for i in 0..n
        invariant
            n == c@.len(),
            f == (|e: (u64, PaneData)| (facing_edge(dir, e.1), e)),
            keyed@ == c@.take(i as int).map_values(f),
    {
        let e = c[i];
        keyed.push((facing_edge_exec(dir, e.1), e));
        assert(keyed@ =~= c@.take(i + 1).map_values(f));
    }
    assert(c@.take(n as int) =~= c@);
    let ghost m = nearest_edge(c@, dir);
    let largest = match dir {
        FocusDirection::Up | FocusDirection::Left => true,
        _ => false,
    };
    let chosen = if largest {
        max_set_by_first(keyed)
    } else {
        min_set_by_first(keyed)
    };
    let ghost p = |q: (u16, (u64, PaneData))| q.0 == m;
    let ghost qf = |e: (u64, PaneData)| facing_edge(dir, e.1) == m;
    proof {
        assert(chosen@ == c@.map_values(f).filter(p));
        lemma_filter_map_commute(c@, f, p, qf);
    }
    let mut r: Vec<(u64, PaneData)> = Vec::new();
    let k = chosen.len();
    for i in 0..k
        invariant
            k == chosen@.len(),
            chosen@ == c@.filter(qf).map_values(f),
            f == (|e: (u64, PaneData)| (facing_edge(dir, e.1), e)),
            r@ == c@.filter(qf).take(i as int),
    {
        assert(chosen@[i as int] == f(c@.filter(qf)[i as int]));
        r.push(chosen[i].1);
        assert(r@ =~= c@.filter(qf).take(i + 1));
    }
    assert(r@ =~= c@.filter(qf));
    r
}

/// The position of the last entry with the largest `active` time.
pub open spec fn is_most_recent(c: Seq<(u64, PaneData)>, i: int) -> bool {
    0 <= i < c.len() && (forall|j: int| 0 <= j < c.len() ==> c[j].1.active <= c[i].1.active) && (
    forall|j: int| i < j < c.len() ==> c[j].1.active < c[i].1.active)
}

/// The most recently focused of the candidates (the last one among equals).
fn most_recent(c: &Vec<(u64, PaneData)>) -> (r: Option<usize>)
    ensures
        match r {
            Some(i) => is_most_recent(c@, i as int),
            None => c@.len() == 0,
        },
{
    if c.len() == 0 {
        return None;
    }
    let mut best: usize = 0;
    let n = c.len();
    for i in 1..n
        invariant
            n == c@.len(),
            best < i,
            forall|j: int| 0 <= j < i ==> c@[j].1.active <= c@[best as int].1.active,
            forall|j: int| best < j < i ==> c@[j].1.active < c@[best as int].1.active,
    {
        if c[i].1.active >= c[best].1.active {
            best = i;
        }
    }
    Some(best)
}

/// The position of the first configured pane with id `id`.
pub open spec fn config_index(panes: Seq<(u64, bool)>, id: u64) -> Option<int> {
    if exists|i: int| 0 <= i < panes.len() && panes[i].0 == id {
        Some(choose|i: int| 0 <= i < panes.len() && panes[i].0 == id && forall|j: int|
            0 <= j < i ==> panes[j].0 != id)
    } else {
        None
    }
}

/// The position of the first configured pane with id `id`.
fn find_config_pane(panes: &Vec<(u64, bool)>, id: u64) -> (r: Option<usize>)
    ensures
        match r {
            Some(i) => i < panes@.len() && panes@[i as int].0 == id && forall|j: int|
                0 <= j < i ==> panes@[j].0 != id,
            None => forall|j: int| 0 <= j < panes@.len() ==> panes@[j].0 != id,
        },
{
    let n = panes.len();
    for i in 0..n
        invariant
            n == panes@.len(),
            forall|j: int| 0 <= j < i ==> panes@[j].0 != id,
    {
        if panes[i].0 == id {
            return Some(i);
        }
    }
    None
}

/// The candidates for focus in direction `dir`: the panes touching the
/// focused one on that side, or when there are none, the nearest beyond it.
pub open spec fn focus_candidates(
    data: Seq<(u64, PaneData)>,
    dir: FocusDirection,
    focused: Rect,
) -> Seq<(u64, PaneData)> {
    if adjacent_panes(data, dir, focused).len() > 0 {
        adjacent_panes(data, dir, focused)
    } else {
        closest_panes(data, dir, focused)
    }
}

impl TabScreen {
    /// A tab showing `panes`, focused on the first one.
    pub fn new(panes: Vec<(u64, bool)>) -> (r: TabScreen)
        ensures
            r.panes@ == panes@,
            r.focused == (if panes@.len() > 0 {
                Some(panes@[0].0)
            } else {
                None
            }),
            r.pane_data@.len() == 0,
            !r.initialized,
    {
        let focused = if panes.len() > 0 {
            Some(panes[0].0)
        } else {
            None
        };
        TabScreen { panes, focused, initialized: false, pane_data: Vec::new() }
    }

    /// The panes directly above `focused_area`.
    pub fn panes_directly_above(&self, focused_area: Rect) -> (r: Vec<(u64, PaneData)>)
        ensures
            r@ == adjacent_panes(self.pane_data@, FocusDirection::Up, focused_area),
    {
        filter_pane_data(&self.pane_data, FocusDirection::Up, focused_area, true)
    }

    /// The panes directly below `focused_area`.
    pub fn panes_directly_below(&self, focused_area: Rect) -> (r: Vec<(u64, PaneData)>)
        ensures
            r@ == adjacent_panes(self.pane_data@, FocusDirection::Down, focused_area),
    {
        filter_pane_data(&self.pane_data, FocusDirection::Down, focused_area, true)
    }

    /// The panes directly left of `focused_area`.
    pub fn panes_directly_left(&self, focused_area: Rect) -> (r: Vec<(u64, PaneData)>)
        ensures
            r@ == adjacent_panes(self.pane_data@, FocusDirection::Left, focused_area),
    {
        filter_pane_data(&self.pane_data, FocusDirection::Left, focused_area, true)
    }

    /// The panes directly right of `focused_area`.
    pub fn panes_directly_right(&self, focused_area: Rect) -> (r: Vec<(u64, PaneData)>)
        ensures
            r@ == adjacent_panes(self.pane_data@, FocusDirection::Right, focused_area),
    {
        filter_pane_data(&self.pane_data, FocusDirection::Right, focused_area, true)
    }

    /// The nearest panes above `focused_area` that do not touch it.
    pub fn closest_panes_above(&self, focused_area: Rect) -> (r: Vec<(u64, PaneData)>)
        ensures
            r@ == closest_panes(self.pane_data@, FocusDirection::Up, focused_area),
    {
        let c = filter_pane_data(&self.pane_data, FocusDirection::Up, focused_area, false);
        nearest_of(c, FocusDirection::Up)
    }

    /// The nearest panes below `focused_area` that do not touch it.
    pub fn closest_panes_below(&self, focused_area: Rect) -> (r: Vec<(u64, PaneData)>)
        ensures
            r@ == closest_panes(self.pane_data@, FocusDirection::Down, focused_area),
    {
        let c = filter_pane_data(&self.pane_data, FocusDirection::Down, focused_area, false);
        nearest_of(c, FocusDirection::Down)
    }

    /// The nearest panes left of `focused_area` that do not touch it.
    pub fn closest_panes_left(&self, focused_area: Rect) -> (r: Vec<(u64, PaneData)>)
        ensures
            r@ == closest_panes(self.pane_data@, FocusDirection::Left, focused_area),
    {
        let c = filter_pane_data(&self.pane_data, FocusDirection::Left, focused_area, false);
        nearest_of(c, FocusDirection::Left)
    }

    /// The nearest panes right of `focused_area` that do not touch it.
    pub fn closest_panes_right(&self, focused_area: Rect) -> (r: Vec<(u64, PaneData)>)
        ensures
            r@ == closest_panes(self.pane_data@, FocusDirection::Right, focused_area),
    {
        let c = filter_pane_data(&self.pane_data, FocusDirection::Right, focused_area, false);
        nearest_of(c, FocusDirection::Right)
    }

    /// The pane to focus when moving from `focused_area` in direction `dir`:
    /// the most recently focused candidate, provided it is a configured
    /// pane.
    pub fn pane_to_focus(&self, dir: FocusDirection, focused_area: Rect) -> (r: Option<u64>)
        ensures
            ({
                let c = focus_candidates(self.pane_data@, dir, focused_area);
                match r {
                    Some(id) => exists|i: int|
                        is_most_recent(c, i) && c[i].0 == id && exists|k: int|
                            0 <= k < self.panes@.len() && self.panes@[k].0 == id,
                    None => c.len() == 0 || forall|i: int|
                        is_most_recent(c, i) ==> forall|k: int|
                            0 <= k < self.panes@.len() ==> self.panes@[k].0 != c[i].0,
                }
            }),
    {
        let direct = match dir {
            FocusDirection::Up => self.panes_directly_above(focused_area),
            FocusDirection::Down => self.panes_directly_below(focused_area),
            FocusDirection::Left => self.panes_directly_left(focused_area),
            FocusDirection::Right => self.panes_directly_right(focused_area),
        };
        let candidates = if direct.len() > 0 {
            direct
        } else {
            match dir {
                FocusDirection::Up => self.closest_panes_above(focused_area),
                FocusDirection::Down => self.closest_panes_below(focused_area),
                FocusDirection::Left => self.closest_panes_left(focused_area),
                FocusDirection::Right => self.closest_panes_right(focused_area),
            }
        };
        assert(candidates@ == focus_candidates(self.pane_data@, dir, focused_area));
        match most_recent(&candidates) {
            Some(i) => {
                let id = candidates[i].0;
                match find_config_pane(&self.panes, id) {
                    Some(k) => {
                        assert(is_most_recent(candidates@, i as int));
                        assert(self.panes@[k as int].0 == id);
                        Some(id)
                    },
                    None => {
                        proof {
                            assert forall|j: int| is_most_recent(candidates@, j) implies j == i by {
                                if j < i {
                                    assert(candidates@[i as int].1.active < candidates@[j].1.active);
                                } else if j > i {
                                    assert(candidates@[j].1.active < candidates@[i as int].1.active);
                                }
                            }
                        }
                        None
                    },
                }
            },
            None => None,
        }
    }
}

/// The position of the first layout entry of pane `id`.
pub open spec fn data_index(data: Seq<(u64, PaneData)>, id: u64) -> Option<int> {
    if exists|i: int| 0 <= i < data.len() && data[i].0 == id {
        Some(choose|i: int| 0 <= i < data.len() && data[i].0 == id && forall|j: int|
            0 <= j < i ==> data[j].0 != id)
    } else {
        None
    }
}

proof fn lemma_data_index(data: Seq<(u64, PaneData)>, id: u64, i: int)
    requires
        0 <= i < data.len(),
        data[i].0 == id,
        forall|j: int| 0 <= j < i ==> data[j].0 != id,
    ensures
        data_index(data, id) == Some(i),
{
    let k = choose|k: int| 0 <= k < data.len() && data[k].0 == id && forall|j: int|
        0 <= j < k ==> data[j].0 != id;
    assert(0 <= k < data.len() && data[k].0 == id);
    if k < i {
        assert(data[k].0 != id);
    } else if k > i {
        assert(data[i].0 != id);
    }
}

/// The position of the first layout entry of pane `id`.
fn find_data(data: &Vec<(u64, PaneData)>, id: u64) -> (r: Option<usize>)
    ensures
        match r {
            Some(i) => data_index(data@, id) == Some(i as int) && i < data@.len(),
            None => data_index(data@, id) is None,
        },
{
    let n = data.len();
    for i in 0..n
        invariant
            n == data@.len(),
            forall|j: int| 0 <= j < i ==> data@[j].0 != id,
    {
        if data[i].0 == id {
            proof {
                lemma_data_index(data@, id, i as int);
            }
            return Some(i);
        }
    }
    None
}

/// The layout after pane `id` was given focus at time `now`.
pub open spec fn touched(data: Seq<(u64, PaneData)>, id: u64, now: u64) -> Seq<(u64, PaneData)> {
    match data_index(data, id) {
        Some(i) => data.update(i, (id, PaneData { active: now, ..data[i].1 })),
        None => data,
    }
}

/// Pane `a` comes before pane `b` when looking for the first pane to focus:
/// further left, or as far left and higher up.
pub open spec fn placed_before(a: Rect, b: Rect) -> bool {
    a.left() < b.left() || (a.left() == b.left() && a.top() < b.top())
}

/// The first focusable laid-out pane that no other focusable pane comes
/// before.
pub open spec fn is_first_placed(data: Seq<(u64, PaneData)>, i: int) -> bool {
    0 <= i < data.len() && data[i].1.focusable && (forall|j: int|
        0 <= j < data.len() && data[j].1.focusable ==> !placed_before(data[j].1.area, data[i].1.area))
        && (forall|j: int|
        0 <= j < i && data[j].1.focusable ==> placed_before(data[i].1.area, data[j].1.area))
}

/// Whether some configured pane with id `id` can take focus.
fn focusable_in_config(panes: &Vec<(u64, bool)>, id: u64) -> (r: bool)
    ensures
        r == exists|k: int| 0 <= k < panes@.len() && panes@[k].0 == id && panes@[k].1,
{
    let m = panes.len();
    for k in 0..m
        invariant
            m == panes@.len(),
            forall|t: int| 0 <= t < k ==> !(panes@[t].0 == id && panes@[t].1),
    {
        if panes[k].0 == id && panes[k].1 {
            return true;
        }
    }
    false
}

impl TabScreen {
    /// Focuses `pane` when given (keeping the current focus otherwise) and
    /// records `now` as the time it last had focus.
    pub fn set_focused(&mut self, pane: Option<u64>, now: u64)
        ensures
            final(self).focused == (match pane {
                Some(id) => Some(id),
                None => old(self).focused,
            }),
            final(self).pane_data@ == (match pane {
                Some(id) => touched(old(self).pane_data@, id, now),
                None => old(self).pane_data@,
            }),
            final(self).panes@ == old(self).panes@,
            final(self).initialized == old(self).initialized,
    {
        self.focused = match pane {
            Some(id) => Some(id),
            None => self.focused,
        };
        if let Some(id) = pane {
            if let Some(j) = find_data(&self.pane_data, id) {
                let mut d = self.pane_data[j].1;
                d.active = now;
                self.pane_data.set(j, (id, d));
                assert(self.pane_data@ =~= touched(old(self).pane_data@, id, now));
            }
        }
    }

    /// Moves focus from the focused pane in direction `dir`, when the focused
    /// pane has been laid out: to the most recently focused candidate on
    /// that side, when it is a configured pane, recording `now` as the time
    /// it got focus; otherwise focus stays.
    pub fn move_focus(&mut self, dir: FocusDirection, now: u64)
        ensures
            final(self).panes@ == old(self).panes@,
            old(self).focused is None || data_index(old(self).pane_data@, old(self).focused->0)
                is None ==> final(self).focused == old(self).focused && final(self).pane_data@
                == old(self).pane_data@,
            old(self).focused is Some && data_index(old(self).pane_data@, old(self).focused->0)
                is Some ==> ({
                let area = old(self).pane_data@[data_index(
                    old(self).pane_data@,
                    old(self).focused->0,
                )->0].1.area;
                let c = focus_candidates(old(self).pane_data@, dir, area);
                let panes = old(self).panes@;
                &&& (exists|i: int|
                    is_most_recent(c, i) && exists|k: int| 0 <= k < panes.len() && panes[k].0 == c[i].0)
                    ==> (exists|i: int|
                    is_most_recent(c, i) && final(self).focused == Some(c[i].0)
                        && final(self).pane_data@ == touched(old(self).pane_data@, c[i].0, now))
                &&& !(exists|i: int|
                    is_most_recent(c, i) && exists|k: int| 0 <= k < panes.len() && panes[k].0 == c[i].0)
                    ==> final(self).focused == old(self).focused && final(self).pane_data@ == old(
                    self,
                ).pane_data@
            }),
    {
        let focused = match self.focused {
            Some(f) => f,
            None => {
                return ;
            },
        };
        let idx = match find_data(&self.pane_data, focused) {
            Some(i) => i,
            None => {
                return ;
            },
        };
        let area = self.pane_data[idx].1.area;
        let target = self.pane_to_focus(dir, area);
        let ghost c = focus_candidates(self.pane_data@, dir, area);
        let ghost before = self.pane_data@;
        assert(data_index(before, focused) == Some(idx as int));
        assert(area == before[data_index(before, focused)->0].1.area);
        self.set_focused(target, now);
        proof {
            match target {
                Some(id) => {
                    let i = choose|i: int| is_most_recent(c, i) && c[i].0 == id;
                    assert(is_most_recent(c, i) && c[i].0 == id);
                    assert(self.focused == Some(c[i].0));
                    assert(self.pane_data@ == touched(before, c[i].0, now));
                    assert(exists|i: int|
                        is_most_recent(c, i) && self.focused == Some(c[i].0) && self.pane_data@
                            == touched(before, c[i].0, now));
                },
                None => {
                    assert forall|i: int|
                        is_most_recent(c, i) implies !(exists|k: int|
                        0 <= k < self.panes@.len() && self.panes@[k].0 == c[i].0) by {}
                },
            }
        }
    }

    /// Focuses the focusable pane under a left click at `pos`: the first laid
    /// out pane whose area holds the cell, when it is configured as
    /// focusable. Returns whether focus was set.
    #[verifier::loop_isolation(false)]
    pub fn focus_at(&mut self, pos: Position, now: u64) -> (r: bool)
        ensures
            final(self).panes@ == old(self).panes@,
            r ==> exists|i: int|
                0 <= i < old(self).pane_data@.len() && old(self).pane_data@[i].1.area.contains(pos)
                    && (forall|j: int|
                    0 <= j < i ==> !old(self).pane_data@[j].1.area.contains(pos)) && (exists|k: int|
                    0 <= k < old(self).panes@.len() && old(self).panes@[k].0 == old(
                        self,
                    ).pane_data@[i].0 && old(self).panes@[k].1) && final(self).focused == Some(
                    old(self).pane_data@[i].0,
                ) && final(self).pane_data@ == touched(
                    old(self).pane_data@,
                    old(self).pane_data@[i].0,
                    now,
                ),
            !r ==> final(self).focused == old(self).focused && final(self).pane_data@ == old(
                self,
            ).pane_data@,
            !r ==> forall|i: int|
                0 <= i < old(self).pane_data@.len() && old(self).pane_data@[i].1.area.contains(pos)
                    && (forall|j: int|
                    0 <= j < i ==> !old(self).pane_data@[j].1.area.contains(pos)) ==> !(exists|k: int|
                    0 <= k < old(self).panes@.len() && old(self).panes@[k].0 == old(
                        self,
                    ).pane_data@[i].0 && old(self).panes@[k].1),
    {
        let n = self.pane_data.len();
        let mut hit: Option<usize> = None;
        let mut i: usize = 0;
        while i < n
            invariant
                n == self.pane_data@.len(),
                i <= n,
                hit is None,
                forall|j: int| 0 <= j < i ==> !self.pane_data@[j].1.area.contains(pos),
            decreases n - i,
        {
            if self.pane_data[i].1.area.contains(pos) {
                hit = Some(i);
                break;
            }
            i = i + 1;
        }
        let j = match hit {
            Some(j) => j,
            None => {
                return false;
            },
        };
        let id = self.pane_data[j].0;
        if focusable_in_config(&self.panes, id) {
            self.set_focused(Some(id), now);
            true
        } else {
            false
        }
    }

    /// The pane to focus when the tab is first shown: the focusable laid-out
    /// pane furthest left (then highest up), provided it is configured.
    pub fn initial_focus(&self) -> (r: Option<u64>)
        ensures
            match r {
                Some(id) => exists|i: int|
                    is_first_placed(self.pane_data@, i) && self.pane_data@[i].0 == id && exists|k: int|
                        0 <= k < self.panes@.len() && self.panes@[k].0 == id,
                None => forall|i: int|
                    is_first_placed(self.pane_data@, i) ==> forall|k: int|
                        0 <= k < self.panes@.len() ==> self.panes@[k].0 != self.pane_data@[i].0,
            },
    {
        let n = self.pane_data.len();
        let mut best: Option<usize> = None;
        for i in 0..n
            invariant
                n == self.pane_data@.len(),
                match best {
                    Some(b) => b < i && self.pane_data@[b as int].1.focusable && (forall|j: int|
                        0 <= j < i && self.pane_data@[j].1.focusable ==> !placed_before(
                            self.pane_data@[j].1.area,
                            self.pane_data@[b as int].1.area,
                        )) && (forall|j: int|
                        0 <= j < b && self.pane_data@[j].1.focusable ==> placed_before(
                            self.pane_data@[b as int].1.area,
                            self.pane_data@[j].1.area,
                        )),
                    None => forall|j: int| 0 <= j < i ==> !self.pane_data@[j].1.focusable,
                },
        {
            let d = self.pane_data[i].1;
            if d.focusable {
                match best {
                    None => {
                        best = Some(i);
                    },
                    Some(b) => {
                        let bd = self.pane_data[b].1;
                        if d.area.left() < bd.area.left() || (d.area.left() == bd.area.left()
                            && d.area.top() < bd.area.top()) {
                            best = Some(i);
                        }
                    },
                }
            }
        }
        match best {
            Some(b) => {
                let id = self.pane_data[b].0;
                proof {
                    assert forall|j: int| is_first_placed(self.pane_data@, j) implies j == b by {
                        if j < b {
                            assert(placed_before(
                                self.pane_data@[b as int].1.area,
                                self.pane_data@[j].1.area,
                            ));
                        } else if j > b {
                            assert(!placed_before(
                                self.pane_data@[j].1.area,
                                self.pane_data@[b as int].1.area,
                            ));
                            assert(!placed_before(
                                self.pane_data@[b as int].1.area,
                                self.pane_data@[j].1.area,
                            ));
                        }
                    }
                    assert(is_first_placed(self.pane_data@, b as int));
                }
                match find_config_pane(&self.panes, id) {
                    Some(k) => Some(id),
                    None => None,
                }
            },
            None => None,
        }
    }

    /// Records where pane `id` was laid out, creating its entry (focusable
    /// as given, last focused `now`) the first time.
    pub fn record_layout(&mut self, id: u64, focusable: bool, area: Rect, block_area: Rect, now: u64)
        ensures
            final(self).focused == old(self).focused,
            final(self).panes@ == old(self).panes@,
            match data_index(old(self).pane_data@, id) {
                Some(i) => final(self).pane_data@ == old(self).pane_data@.update(
                    i,
                    (id, PaneData { area, block_area, ..old(self).pane_data@[i].1 }),
                ),
                None => final(self).pane_data@ == old(self).pane_data@.push(
                    (id, PaneData { area, block_area, focusable, active: now }),
                ),
            },
    {
        match find_data(&self.pane_data, id) {
            Some(j) => {
                let mut d = self.pane_data[j].1;
                d.area = area;
                d.block_area = block_area;
                self.pane_data.set(j, (id, d));
            },
            None => {
                let mut d = PaneData::new(focusable, now);
                d.area = area;
                d.block_area = block_area;
                self.pane_data.push((id, d));
            },
        }
    }
}

/// Keyboard focus moves only to a laid-out pane that can take focus and
/// lies on the requested side of the focused pane: every candidate touches
/// the focused pane on that side or lies beyond it there.
pub proof fn law_focus_moves_to_requested_side(
    data: Seq<(u64, PaneData)>,
    dir: FocusDirection,
    focused: Rect,
    i: int,
)
    requires
        0 <= i < focus_candidates(data, dir, focused).len(),
    ensures
        ({
            let e = focus_candidates(data, dir, focused)[i];
            &&& data.contains(e)
            &&& e.1.focusable
            &&& is_adjacent(dir, e.1, focused) || is_beyond(dir, e.1, focused)
        }),
{
    let adj = |e: (u64, PaneData)| is_adjacent(dir, e.1, focused);
    let bey = |e: (u64, PaneData)| is_beyond(dir, e.1, focused);
    if adjacent_panes(data, dir, focused).len() > 0 {
        let e = data.filter(adj)[i];
        data.lemma_filter_pred(adj, i);
        assert(data.filter(adj).contains(e));
        data.lemma_filter_contains_rev(adj, e);
    } else {
        let c = data.filter(bey);
        let near = |e: (u64, PaneData)| facing_edge(dir, e.1) == nearest_edge(c, dir);
        let e = c.filter(near)[i];
        assert(c.filter(near).contains(e));
        c.lemma_filter_contains_rev(near, e);
        let k = choose|k: int| 0 <= k < c.len() && c[k] == e;
        data.lemma_filter_pred(bey, k);
        assert(c.contains(e));
        data.lemma_filter_contains_rev(bey, e);
    }
}


proof fn lemma_max_first<T>(s: Seq<(u16, T)>)
    requires
        s.len() > 0,
    ensures
        forall|i: int| 0 <= i < s.len() ==> (#[trigger] s[i]).0 <= max_first(s),
        exists|i: int| 0 <= i < s.len() && (#[trigger] s[i]).0 == max_first(s),
    decreases s.len(),
{
    if s.len() > 1 {
        lemma_max_first(s.drop_last());
        assert forall|i: int| 0 <= i < s.len() implies (#[trigger] s[i]).0 <= max_first(s) by {
            if i < s.len() - 1 {
                assert(s.drop_last()[i] == s[i]);
            }
        }
        let j = choose|j: int| 0 <= j < s.drop_last().len() && (#[trigger] s.drop_last()[j]).0 == max_first(s.drop_last());
        assert(s[j] == s.drop_last()[j]);
        assert(s[s.len() - 1] == s.last());
    } else {
        assert(s[0] == s.last());
    }
}

proof fn lemma_min_first<T>(s: Seq<(u16, T)>)
    requires
        s.len() > 0,
    ensures
        forall|i: int| 0 <= i < s.len() ==> min_first(s) <= (#[trigger] s[i]).0,
        exists|i: int| 0 <= i < s.len() && (#[trigger] s[i]).0 == min_first(s),
    decreases s.len(),
{
    if s.len() > 1 {
        lemma_min_first(s.drop_last());
        assert forall|i: int| 0 <= i < s.len() implies min_first(s) <= (#[trigger] s[i]).0 by {
            if i < s.len() - 1 {
                assert(s.drop_last()[i] == s[i]);
            }
        }
        let j = choose|j: int| 0 <= j < s.drop_last().len() && (#[trigger] s.drop_last()[j]).0 == min_first(s.drop_last());
        assert(s[j] == s.drop_last()[j]);
        assert(s[s.len() - 1] == s.last());
    } else {
        assert(s[0] == s.last());
    }
}

/// Every element kept by a filter comes from the sequence filtered.
proof fn lemma_filter_from<A>(s: Seq<A>, p: spec_fn(A) -> bool, i: int)
    requires
        0 <= i < s.filter(p).len(),
    ensures
        s.contains(s.filter(p)[i]),
        p(s.filter(p)[i]),
    decreases s.len(),
{
    reveal(Seq::filter);
    broadcast use vstd::seq_lib::group_filter_ensures;
    if s.len() > 0 {
        let prev = s.drop_last().filter(p);
        if p(s.last()) {
            assert(s.filter(p) == prev.push(s.last()));
            if i < prev.len() {
                lemma_filter_from(s.drop_last(), p, i);
                let j = choose|j: int| 0 <= j < s.drop_last().len() && s.drop_last()[j] == prev[i];
                assert(s[j] == prev[i]);
            } else {
                assert(s[s.len() - 1] == s.filter(p)[i]);
            }
        } else {
            assert(s.filter(p) == prev);
            lemma_filter_from(s.drop_last(), p, i);
            let j = choose|j: int| 0 <= j < s.drop_last().len() && s.drop_last()[j] == prev[i];
            assert(s[j] == prev[i]);
        }
    }
}

/// The nearest panes beyond the focused one on a side are its candidates
/// when no pane touches it there: each lies beyond it on that side, no
/// focusable pane beyond it there is strictly nearer (above, none has a
/// larger bottom edge; below, none a smaller top edge; to the left, none
/// a larger left edge; to the right, none a smaller left edge), and there
/// is one whenever some focusable pane lies beyond it.
pub proof fn law_closest_panes_are_nearest(data: Seq<(u64, PaneData)>, dir: FocusDirection, focused: Rect)
    ensures
        ({
            let c = closest_panes(data, dir, focused);
            &&& forall|k: int| 0 <= k < c.len() ==> is_beyond(dir, (#[trigger] c[k]).1, focused) && data.contains(c[k])
            &&& forall|k: int, j: int|
                0 <= k < c.len() && 0 <= j < data.len() && is_beyond(dir, data[j].1, focused) ==> match dir {
                    FocusDirection::Up => (#[trigger] data[j]).1.area.bottom() <= (#[trigger] c[k]).1.area.bottom(),
                    FocusDirection::Down => data[j].1.area.top() >= c[k].1.area.top(),
                    FocusDirection::Left => data[j].1.area.left() <= c[k].1.area.left(),
                    FocusDirection::Right => data[j].1.area.left() >= c[k].1.area.left(),
                }
            &&& (exists|j: int| 0 <= j < data.len() && is_beyond(dir, #[trigger] data[j].1, focused)) ==> c.len() > 0
        }),
{
    broadcast use vstd::seq_lib::group_filter_ensures;
    let bp = |e: (u64, PaneData)| is_beyond(dir, e.1, focused);
    let b = data.filter(bp);
    let m = nearest_edge(b, dir);
    let ep = |e: (u64, PaneData)| facing_edge(dir, e.1) == m;
    let c = b.filter(ep);
    assert(c == closest_panes(data, dir, focused));
    let f = |e: (u64, PaneData)| (facing_edge(dir, e.1), e);
    let keyed = b.map_values(f);
    if b.len() > 0 {
        if nearest_is_largest(dir) {
            lemma_max_first(keyed);
        } else {
            lemma_min_first(keyed);
        }
    }
    assert forall|k: int| 0 <= k < c.len() implies is_beyond(dir, (#[trigger] c[k]).1, focused) && data.contains(c[k]) by {
        lemma_filter_from(b, ep, k);
        let t = choose|t: int| 0 <= t < b.len() && b[t] == c[k];
        lemma_filter_from(data, bp, t);
    }
    assert forall|k: int, j: int|
        0 <= k < c.len() && 0 <= j < data.len() && is_beyond(dir, data[j].1, focused) implies match dir {
            FocusDirection::Up => (#[trigger] data[j]).1.area.bottom() <= (#[trigger] c[k]).1.area.bottom(),
            FocusDirection::Down => data[j].1.area.top() >= c[k].1.area.top(),
            FocusDirection::Left => data[j].1.area.left() <= c[k].1.area.left(),
            FocusDirection::Right => data[j].1.area.left() >= c[k].1.area.left(),
        } by {
        lemma_filter_from(b, ep, k);
        assert(data.filter(bp).contains(data[j]));
        let t = choose|t: int| 0 <= t < b.len() && b[t] == data[j];
        assert(keyed[t] == f(b[t]));
    }
    if exists|j: int| 0 <= j < data.len() && is_beyond(dir, #[trigger] data[j].1, focused) {
        let j = choose|j: int| 0 <= j < data.len() && is_beyond(dir, #[trigger] data[j].1, focused);
        assert(data.filter(bp).contains(data[j]));
        assert(b.len() > 0);
        let t = if nearest_is_largest(dir) {
            choose|t: int| 0 <= t < keyed.len() && (#[trigger] keyed[t]).0 == max_first(keyed)
        } else {
            choose|t: int| 0 <= t < keyed.len() && (#[trigger] keyed[t]).0 == min_first(keyed)
        };
        assert(keyed[t] == f(b[t]));
        assert(ep(b[t]));
        assert(b.filter(ep).contains(b[t]));
    }
}


/// The panes touching the focused one on a side are exactly the focusable
/// panes whose facing side lies on its edge there and that share a column
/// (up, down) or a row (left, right) with it.
pub proof fn law_adjacent_panes_touch(data: Seq<(u64, PaneData)>, dir: FocusDirection, focused: Rect)
    ensures
        ({
            let c = adjacent_panes(data, dir, focused);
            let touches = |d: PaneData| d.focusable && match dir {
                FocusDirection::Up => d.block_area.bottom() == focused.top() && d.block_area.overlaps_in_x(focused),
                FocusDirection::Down => d.block_area.top() == focused.bottom() && d.block_area.overlaps_in_x(focused),
                FocusDirection::Left => d.block_area.right() == focused.left() && d.block_area.overlaps_in_y(focused),
                FocusDirection::Right => d.block_area.left() == focused.right() && d.block_area.overlaps_in_y(focused),
            };
            &&& forall|k: int| 0 <= k < c.len() ==> touches((#[trigger] c[k]).1) && data.contains(c[k])
            &&& forall|j: int| 0 <= j < data.len() && touches((#[trigger] data[j]).1) ==> c.contains(data[j])
        }),
{
    broadcast use vstd::seq_lib::group_filter_ensures;
    let ap = |e: (u64, PaneData)| is_adjacent(dir, e.1, focused);
    let c = data.filter(ap);
    assert forall|k: int| 0 <= k < c.len() implies data.contains(#[trigger] c[k]) by {
        lemma_filter_from(data, ap, k);
    }
}

} // verus!
