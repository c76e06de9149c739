//! A two-dimensional point with exact rational coordinates, used for the
//! world-space anchor of each joint.

use crate::rat::Rat;
use vstd::prelude::*;

verus! {

/// A point of the plane.
#[derive(Clone, Copy, Debug)]
pub struct Point {
    pub x: Rat,
    pub y: Rat,
}

impl Point {
    /// Both coordinates are within the stored range.
    pub open spec fn wf(self) -> bool {
        self.x.wf() && self.y.wf()
    }

    /// The point with the given coordinates.
    pub fn new(x: Rat, y: Rat) -> (r: Point)
        ensures
            r == (Point { x, y }),
    {
        Point { x, y }
    }

    /// The origin.
    pub fn origin() -> (r: Point)
        ensures
            r.wf(),
            r.x@ == (0int, 1int),
            r.y@ == (0int, 1int),
    {
        Point { x: Rat::from_int(0), y: Rat::from_int(0) }
    }
}

} // verus!
