//! Planar geometry over coordinates held as binary64 bit patterns: points,
//! segments and axis-aligned rectangles.
use crate::binary64::{lt, spec_lt};
use vstd::prelude::*;

verus! {

/// A point of the plane.
#[derive(Clone, Copy, Debug, PartialEq, Eq, Structural)]
pub struct Coord {
    pub x: u64,
    pub y: u64,
}

/// A segment, from `start` to `end`.
#[derive(Clone, Copy, Debug, PartialEq, Eq, Structural)]
pub struct Line {
    pub start: Coord,
    pub end: Coord,
}

/// An axis-aligned rectangle, given by two opposite corners.
#[derive(Clone, Copy, Debug, PartialEq, Eq, Structural)]
pub struct Rect {
    pub min: Coord,
    pub max: Coord,
}

/// An interval of one axis.
#[derive(Clone, Copy, Debug, PartialEq, Eq, Structural)]
pub struct Span {
    pub start: u64,
    pub end: u64,
}

/// Two numbers in order: the first of the pair is `a` exactly when `a < b`.
pub open spec fn ordered(a: u64, b: u64) -> (u64, u64) {
    if spec_lt(a, b) {
        (a, b)
    } else {
        (b, a)
    }
}

impl Rect {
    /// The rectangle with corners `c1` and `c2`: on each axis, `min` holds
    /// the first coordinate where it is less than the second, and the
    /// second otherwise.
    pub open spec fn spec_new(c1: Coord, c2: Coord) -> Rect {
        Rect {
            min: Coord { x: ordered(c1.x, c2.x).0, y: ordered(c1.y, c2.y).0 },
            max: Coord { x: ordered(c1.x, c2.x).1, y: ordered(c1.y, c2.y).1 },
        }
    }

    #[verifier::when_used_as_spec(spec_new)]
    pub fn new(c1: Coord, c2: Coord) -> (r: Rect)
        ensures
            r == Rect::spec_new(c1, c2),
    {
        let (min_x, max_x) = if lt(c1.x, c2.x) {
            (c1.x, c2.x)
        } else {
            (c2.x, c1.x)
        };
        let (min_y, max_y) = if lt(c1.y, c2.y) {
            (c1.y, c2.y)
        } else {
            (c2.y, c1.y)
        };
        Rect { min: Coord { x: min_x, y: min_y }, max: Coord { x: max_x, y: max_y } }
    }
}

impl Line {
    /// The smallest rectangle that holds the segment.
    pub open spec fn spec_bounding_rect(&self) -> Rect {
        Rect::spec_new(self.start, self.end)
    }

    #[verifier::when_used_as_spec(spec_bounding_rect)]
    pub fn bounding_rect(&self) -> (r: Rect)
        ensures
            r == self.spec_bounding_rect(),
    {
        Rect::new(self.start, self.end)
    }
}

/// Where no coordinate of a segment is a NaN, its bounding rectangle runs
/// from the lesser to the greater coordinate on each axis.
pub proof fn lemma_bounding_rect_is_ordered(line: Line)
    requires
        !crate::binary64::spec_is_nan(line.start.x),
        !crate::binary64::spec_is_nan(line.start.y),
        !crate::binary64::spec_is_nan(line.end.x),
        !crate::binary64::spec_is_nan(line.end.y),
    ensures
        crate::binary64::spec_le(line.spec_bounding_rect().min.x, line.spec_bounding_rect().max.x),
        crate::binary64::spec_le(line.spec_bounding_rect().min.y, line.spec_bounding_rect().max.y),
{
}

} // verus!
