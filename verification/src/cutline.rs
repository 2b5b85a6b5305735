use vstd::prelude::*;
use crate::geom::{Point, Rect};
use crate::rng::random_in_range;

verus! {

/// A decorative line whose two endpoints are resampled uniformly within the
/// window bounds every frame.
pub struct CutLine {
    pub start: Point,
    pub end: Point,
}

impl CutLine {
    /// Both endpoints lie within the rectangle, bounds included.
    pub open spec fn in_rect(self, r: Rect) -> bool {
        r.spec_contains(self.start) && r.spec_contains(self.end)
    }

    /// A fresh cut line with both endpoints sampled inside the window.
    pub fn new(win_rect: &Rect) -> (c: CutLine)
        requires
            win_rect.wf(),
        ensures
            c.in_rect(*win_rect),
    {
        let start = Point {
            x: random_in_range(win_rect.left, win_rect.right),
            y: random_in_range(win_rect.bottom, win_rect.top),
        };
        let end = Point {
            x: random_in_range(win_rect.left, win_rect.right),
            y: random_in_range(win_rect.bottom, win_rect.top),
        };
        CutLine { start, end }
    }

    /// Replace both endpoints with fresh samples inside the window; whatever
    /// the samples, the new endpoints lie within the bounds.
    pub fn update(&mut self, win_rect: &Rect)
        requires
            win_rect.wf(),
        ensures
            final(self).in_rect(*win_rect),
    {
        self.start = Point {
            x: random_in_range(win_rect.left, win_rect.right),
            y: random_in_range(win_rect.bottom, win_rect.top),
        };
        self.end = Point {
            x: random_in_range(win_rect.left, win_rect.right),
            y: random_in_range(win_rect.bottom, win_rect.top),
        };
    }
}

} // verus!
