//! Axis-aligned bounding boxes on the integer pixel grid.

use vstd::prelude::*;

verus! {

/// An axis-aligned rectangle: NW corner `(x, y)`, extent `width` x `height`.
#[derive(Clone, Copy, Debug, PartialEq, Eq, Structural)]
pub struct Rect {
    pub x: i32,
    pub y: i32,
    pub width: u32,
    pub height: u32,
}

impl Rect {
    /// One past the right edge, as a mathematical integer.
    pub open spec fn spec_right(self) -> int {
        self.x + self.width
    }

    /// One past the bottom edge, as a mathematical integer.
    pub open spec fn spec_bottom(self) -> int {
        self.y + self.height
    }

    /// Two rectangles overlap when they share interior area on both axes.
    pub open spec fn spec_overlaps(self, other: Rect) -> bool {
        &&& self.x < other.spec_right()
        &&& other.x < self.spec_right()
        &&& self.y < other.spec_bottom()
        &&& other.y < self.spec_bottom()
    }

    pub fn new(x: i32, y: i32, width: u32, height: u32) -> (r: Rect)
        ensures
            r == (Rect { x, y, width, height }),
    {
        Rect { x, y, width, height }
    }

    /// One past the right edge.
    pub fn right(&self) -> (r: i32)
        requires
            self.width <= i32::MAX,
            self.spec_right() <= i32::MAX,
        ensures
            r == self.spec_right(),
    {
        self.x + self.width as i32
    }

    /// One past the bottom edge.
    pub fn bottom(&self) -> (r: i32)
        requires
            self.height <= i32::MAX,
            self.spec_bottom() <= i32::MAX,
        ensures
            r == self.spec_bottom(),
    {
        self.y + self.height as i32
    }

    /// The top edge.
    pub fn top(&self) -> (r: i32)
        ensures
            r == self.y,
    {
        self.y
    }

    /// Whether the two rectangles share interior area.
    pub fn has_intersection(&self, other: &Rect) -> (r: bool)
        requires
            self.width <= i32::MAX,
            self.height <= i32::MAX,
            other.width <= i32::MAX,
            other.height <= i32::MAX,
            self.spec_right() <= i32::MAX,
            self.spec_bottom() <= i32::MAX,
            other.spec_right() <= i32::MAX,
            other.spec_bottom() <= i32::MAX,
        ensures
            r == self.spec_overlaps(*other),
    {
        self.x < other.right()
            && other.x < self.right()
            && self.y < other.bottom()
            && other.y < self.bottom()
    }
}

} // verus!
