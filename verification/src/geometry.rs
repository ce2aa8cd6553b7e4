//! Screen rectangles, in terminal cells.
use vstd::prelude::*;

verus! {

/// A rectangle of terminal cells: its top-left corner and its size.
#[derive(Clone, Copy, PartialEq, Eq, Structural, Debug)]
pub struct Rect {
    pub x: u16,
    pub y: u16,
    pub width: u16,
    pub height: u16,
}

/// A cell position.
#[derive(Clone, Copy, PartialEq, Eq, Structural, Debug)]
pub struct Position {
    pub x: u16,
    pub y: u16,
}

/// `a + b`, or the largest `u16` when that overflows.
pub open spec fn sat_add(a: u16, b: u16) -> u16 {
    if a + b > u16::MAX {
        u16::MAX
    } else {
        (a + b) as u16
    }
}

impl Rect {
    /// The first column.
    pub open spec fn left_spec(self) -> u16 {
        self.x
    }

    /// The column just past the rectangle.
    pub open spec fn right_spec(self) -> u16 {
        sat_add(self.x, self.width)
    }

    /// The first row.
    pub open spec fn top_spec(self) -> u16 {
        self.y
    }

    /// The row just past the rectangle.
    pub open spec fn bottom_spec(self) -> u16 {
        sat_add(self.y, self.height)
    }

    /// The two rectangles share some column.
    pub open spec fn overlaps_in_x_spec(self, other: Rect) -> bool {
        self.left_spec() < other.right_spec() && self.right_spec() > other.left_spec()
    }

    /// The two rectangles share some row.
    pub open spec fn overlaps_in_y_spec(self, other: Rect) -> bool {
        self.top_spec() < other.bottom_spec() && self.bottom_spec() > other.top_spec()
    }

    /// The cell lies inside the rectangle.
    pub open spec fn contains_spec(self, p: Position) -> bool {
        self.left_spec() <= p.x && p.x < self.right_spec() && self.top_spec() <= p.y && p.y
            < self.bottom_spec()
    }

    /// The first column.
    #[verifier::when_used_as_spec(left_spec)]
    pub fn left(self) -> (r: u16)
        ensures
            r == self.left_spec(),
    {
        self.x
    }

    /// The column just past the rectangle (saturating).
    #[verifier::when_used_as_spec(right_spec)]
    pub fn right(self) -> (r: u16)
        ensures
            r == self.right_spec(),
    {
        self.x.saturating_add(self.width)
    }

    /// The first row.
    #[verifier::when_used_as_spec(top_spec)]
    pub fn top(self) -> (r: u16)
        ensures
            r == self.top_spec(),
    {
        self.y
    }

    /// The row just past the rectangle (saturating).
    #[verifier::when_used_as_spec(bottom_spec)]
    pub fn bottom(self) -> (r: u16)
        ensures
            r == self.bottom_spec(),
    {
        self.y.saturating_add(self.height)
    }

    /// Whether the two rectangles share some column.
    #[verifier::when_used_as_spec(overlaps_in_x_spec)]
    pub fn overlaps_in_x(self, other: Rect) -> (r: bool)
        ensures
            r == self.overlaps_in_x_spec(other),
    {
        self.left() < other.right() && self.right() > other.left()
    }

    /// Whether the two rectangles share some row.
    #[verifier::when_used_as_spec(overlaps_in_y_spec)]
    pub fn overlaps_in_y(self, other: Rect) -> (r: bool)
        ensures
            r == self.overlaps_in_y_spec(other),
    {
        self.top() < other.bottom() && self.bottom() > other.top()
    }

    /// Whether the cell lies inside the rectangle.
    #[verifier::when_used_as_spec(contains_spec)]
    pub fn contains(self, p: Position) -> (r: bool)
        ensures
            r == self.contains_spec(p),
    {
        self.left() <= p.x && p.x < self.right() && self.top() <= p.y && p.y < self.bottom()
    }
}

} // verus!
