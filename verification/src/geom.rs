use vstd::prelude::*;

verus! {

/// A point in the sketch plane, in integer units.
#[derive(Clone, Copy, PartialEq, Eq, Structural, Debug)]
pub struct Point {
    pub x: i64,
    pub y: i64,
}

/// A straight line segment between two points.
#[derive(Clone, Copy, PartialEq, Eq, Structural, Debug)]
pub struct Segment {
    pub from: Point,
    pub to: Point,
}

/// An axis-aligned rectangle, such as the window bounds.
#[derive(Clone, Copy, PartialEq, Eq, Structural, Debug)]
pub struct Rect {
    pub left: i64,
    pub right: i64,
    pub bottom: i64,
    pub top: i64,
}

impl Rect {
    /// A rectangle is well formed when its sides are ordered.
    pub open spec fn wf(self) -> bool {
        self.left <= self.right && self.bottom <= self.top
    }

    /// Whether a point lies inside the rectangle, bounds included.
    pub open spec fn spec_contains(self, p: Point) -> bool {
        self.left <= p.x <= self.right && self.bottom <= p.y <= self.top
    }
}

} // verus!
