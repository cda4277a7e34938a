//! Intervals of one axis and what two of them share.
use crate::binary64::{lt, max, min, spec_is_nan, spec_le, spec_lt, spec_max, spec_min};
use crate::geometry::{Rect, Span};
use vstd::prelude::*;

verus! {

/// The extent of a rectangle along the x axis.
pub open spec fn spec_x_range(rect: &Rect) -> Span {
    Span { start: rect.min.x, end: rect.max.x }
}

/// The extent of a rectangle along the y axis.
pub open spec fn spec_y_range(rect: &Rect) -> Span {
    Span { start: rect.min.y, end: rect.max.y }
}

/// What two intervals share. There is nothing where one ends before the
/// other starts; intervals that only touch share an interval of no width.
pub open spec fn spec_overlap_range(r1: Span, r2: Span) -> Option<Span> {
    if spec_lt(r1.end, r2.start) || spec_lt(r2.end, r1.start) {
        None
    } else {
        Some(Span { start: spec_max(r1.start, r2.start), end: spec_min(r1.end, r2.end) })
    }
}

#[verifier::when_used_as_spec(spec_x_range)]
pub fn x_range(rect: &Rect) -> (r: Span)
    ensures
        r == spec_x_range(rect),
{
    Span { start: rect.min.x, end: rect.max.x }
}

#[verifier::when_used_as_spec(spec_y_range)]
pub fn y_range(rect: &Rect) -> (r: Span)
    ensures
        r == spec_y_range(rect),
{
    Span { start: rect.min.y, end: rect.max.y }
}

#[verifier::when_used_as_spec(spec_overlap_range)]
pub fn overlap_range(r1: Span, r2: Span) -> (r: Option<Span>)
    ensures
        r == spec_overlap_range(r1, r2),
{
    if lt(r1.end, r2.start) || lt(r2.end, r1.start) {
        None
    } else {
        Some(Span { start: max(r1.start, r2.start), end: min(r1.end, r2.end) })
    }
}

/// Among intervals whose bounds are numbers, two intervals share something
/// exactly when each ends at or after the start of the other. What they
/// share then runs from the later start to the earlier end.
pub proof fn lemma_overlap_range(r1: Span, r2: Span)
    requires
        !spec_is_nan(r1.start),
        !spec_is_nan(r1.end),
        !spec_is_nan(r2.start),
        !spec_is_nan(r2.end),
    ensures
        spec_overlap_range(r1, r2) is Some <==> spec_le(r2.start, r1.end) && spec_le(
            r1.start,
            r2.end,
        ),
        spec_overlap_range(r1, r2) matches Some(s) ==> {
            &&& spec_le(r1.start, s.start) && spec_le(r2.start, s.start)
            &&& s.start == r1.start || s.start == r2.start
            &&& spec_le(s.end, r1.end) && spec_le(s.end, r2.end)
            &&& s.end == r1.end || s.end == r2.end
        },
{
}

} // verus!
