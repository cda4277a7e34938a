//! The tests that a pair of segments passes before it counts as a match, and
//! the choice of the axis along which its shared length is taken.
//!
//! A pair comes from the join of the two spatial indexes. What takes
//! arithmetic on the coordinates (angles, the distance between the segments,
//! the length of the lifted overlap) is measured by the caller and handed in;
//! every comparison and every choice is made here.
use crate::binary64::{
    is_infinite, is_nan, le, lemma_order_is_transitive, lt, magnitude, spec_is_infinite,
    spec_is_nan, spec_le, spec_lt, spec_magnitude, FORTY_FIVE, ZERO,
};
use crate::geometry::{Line, Rect, Span};
use crate::overlap::{
    overlap_range, spec_overlap_range, spec_x_range, spec_y_range, x_range, y_range,
};
use vstd::prelude::*;

verus! {

/// A segment of a source feature and a segment of a target feature whose
/// envelopes intersect.
#[derive(Clone, Copy, Debug)]
pub struct Pair {
    /// The index of the source feature.
    pub source_index: usize,
    /// The index of the target feature.
    pub target_index: usize,
    /// The segment of the source feature.
    pub source_line: Line,
    /// The segment of the target feature.
    pub target_line: Line,
    /// The slope of the source segment.
    pub source_slope: u64,
    /// The angle of the source segment in degrees, the arc tangent of its
    /// slope.
    pub source_degrees: u64,
    /// The angle of the source segment less that of the target segment, in
    /// degrees.
    pub angle_difference: u64,
}

/// How the length that a pair shares is to be measured.
#[derive(Clone, Copy, Debug, PartialEq, Eq, Structural)]
pub enum Lift {
    /// The segments share nothing on the chosen axis: the length is zero.
    Nothing,
    /// The interval of the x axis that the segments share is lifted onto the
    /// line of the source segment.
    AlongX { overlap: Span },
    /// The interval of the y axis that the segments share is lifted onto the
    /// line of the source segment. Where `vertical` holds the slope of that
    /// line is infinite or undefined, and both ends take the x of the source
    /// segment's start.
    AlongY { overlap: Span, vertical: bool },
}

/// A pair with what was measured of it.
#[derive(Clone, Copy, Debug)]
pub struct Sighting {
    pub pair: Pair,
    /// The distance between the two segments.
    pub distance: u64,
    /// The length of the overlap that `pair.lift()` names, lifted onto the
    /// line of the source segment. Not read where that is `Lift::Nothing`.
    pub lifted_len: u64,
}

impl Pair {
    /// What the bounding rectangles of the two segments share on the x axis.
    pub open spec fn spec_x_overlap(&self) -> Option<Span> {
        spec_overlap_range(
            spec_x_range(&self.source_line.spec_bounding_rect()),
            spec_x_range(&self.target_line.spec_bounding_rect()),
        )
    }

    /// What the bounding rectangles of the two segments share on the y axis.
    pub open spec fn spec_y_overlap(&self) -> Option<Span> {
        spec_overlap_range(
            spec_y_range(&self.source_line.spec_bounding_rect()),
            spec_y_range(&self.target_line.spec_bounding_rect()),
        )
    }

    /// The angle gate: the two angles differ by less than the tolerance. An
    /// angle that is not a number fails it.
    pub open spec fn spec_angle_gate(&self, angle_tolerance: u64) -> bool {
        spec_lt(spec_magnitude(self.angle_difference), angle_tolerance)
    }

    /// The geometric gate: the bounding rectangles share something on at
    /// least one axis.
    pub open spec fn spec_geometric_gate(&self) -> bool {
        self.spec_x_overlap() is Some || self.spec_y_overlap() is Some
    }

    /// The two gates that need no distance.
    pub open spec fn spec_screen(&self, angle_tolerance: u64) -> bool {
        self.spec_angle_gate(angle_tolerance) && self.spec_geometric_gate()
    }

    /// Whether the source segment is nearer to horizontal than to vertical:
    /// its angle is at most 45 degrees to either side.
    pub open spec fn spec_is_shallow(&self) -> bool {
        spec_le(spec_magnitude(self.source_degrees), FORTY_FIVE)
    }

    /// The axis along which the shared length is taken, and the interval to
    /// lift: the x axis for a shallow source segment, the y axis for a steep
    /// one.
    pub open spec fn spec_lift(&self) -> Lift {
        if self.spec_is_shallow() {
            match self.spec_x_overlap() {
                Some(overlap) => Lift::AlongX { overlap },
                None => Lift::Nothing,
            }
        } else {
            match self.spec_y_overlap() {
                Some(overlap) => Lift::AlongY {
                    overlap,
                    vertical: spec_is_infinite(self.source_slope) || spec_is_nan(
                        self.source_slope,
                    ),
                },
                None => Lift::Nothing,
            }
        }
    }

    #[verifier::when_used_as_spec(spec_x_overlap)]
    pub fn x_overlap(&self) -> (r: Option<Span>)
        ensures
            r == self.spec_x_overlap(),
    {
        let source_box: Rect = self.source_line.bounding_rect();
        let target_box: Rect = self.target_line.bounding_rect();
        overlap_range(x_range(&source_box), x_range(&target_box))
    }

    #[verifier::when_used_as_spec(spec_y_overlap)]
    pub fn y_overlap(&self) -> (r: Option<Span>)
        ensures
            r == self.spec_y_overlap(),
    {
        let source_box: Rect = self.source_line.bounding_rect();
        let target_box: Rect = self.target_line.bounding_rect();
        overlap_range(y_range(&source_box), y_range(&target_box))
    }

    #[verifier::when_used_as_spec(spec_angle_gate)]
    pub fn angle_gate(&self, angle_tolerance: u64) -> (r: bool)
        ensures
            r == self.spec_angle_gate(angle_tolerance),
    {
        lt(magnitude(self.angle_difference), angle_tolerance)
    }

    #[verifier::when_used_as_spec(spec_geometric_gate)]
    pub fn geometric_gate(&self) -> (r: bool)
        ensures
            r == self.spec_geometric_gate(),
    {
        self.x_overlap().is_some() || self.y_overlap().is_some()
    }

    #[verifier::when_used_as_spec(spec_screen)]
    pub fn screen(&self, angle_tolerance: u64) -> (r: bool)
        ensures
            r == self.spec_screen(angle_tolerance),
    {
        self.angle_gate(angle_tolerance) && self.geometric_gate()
    }

    #[verifier::when_used_as_spec(spec_is_shallow)]
    pub fn is_shallow(&self) -> (r: bool)
        ensures
            r == self.spec_is_shallow(),
    {
        le(magnitude(self.source_degrees), FORTY_FIVE)
    }

    #[verifier::when_used_as_spec(spec_lift)]
    pub fn lift(&self) -> (r: Lift)
        ensures
            r == self.spec_lift(),
    {
        if self.is_shallow() {
            match self.x_overlap() {
                Some(overlap) => Lift::AlongX { overlap },
                None => Lift::Nothing,
            }
        } else {
            match self.y_overlap() {
                Some(overlap) => Lift::AlongY {
                    overlap,
                    vertical: is_infinite(self.source_slope) || is_nan(self.source_slope),
                },
                None => Lift::Nothing,
            }
        }
    }
}

/// The distance gate: the segments are no further apart than the tolerance.
pub open spec fn spec_distance_gate(distance: u64, distance_tolerance: u64) -> bool {
    spec_le(distance, distance_tolerance)
}

#[verifier::when_used_as_spec(spec_distance_gate)]
pub fn distance_gate(distance: u64, distance_tolerance: u64) -> (r: bool)
    ensures
        r == spec_distance_gate(distance, distance_tolerance),
{
    le(distance, distance_tolerance)
}

impl Sighting {
    /// The length that the pair adds to the match of its two features, or
    /// `None` where the pair fails a gate. A pair that passes and shares
    /// nothing on its axis adds a zero.
    pub open spec fn spec_shared_len(
        &self,
        angle_tolerance: u64,
        distance_tolerance: u64,
    ) -> Option<u64> {
        if self.pair.spec_screen(angle_tolerance) && spec_distance_gate(
            self.distance,
            distance_tolerance,
        ) {
            if self.pair.spec_lift() is Nothing {
                Some(ZERO)
            } else {
                Some(self.lifted_len)
            }
        } else {
            None
        }
    }

    #[verifier::when_used_as_spec(spec_shared_len)]
    pub fn shared_len(&self, angle_tolerance: u64, distance_tolerance: u64) -> (r: Option<u64>)
        ensures
            r == self.spec_shared_len(angle_tolerance, distance_tolerance),
    {
        if self.pair.screen(angle_tolerance) && distance_gate(self.distance, distance_tolerance) {
            match self.pair.lift() {
                Lift::Nothing => Some(ZERO),
                _ => Some(self.lifted_len),
            }
        } else {
            None
        }
    }
}

/// A pair that passes the gates at some tolerances passes them at all wider
/// ones, with the same length.
pub proof fn lemma_wider_tolerances_admit(
    sighting: Sighting,
    angle_tolerance: u64,
    distance_tolerance: u64,
    wider_angle: u64,
    wider_distance: u64,
)
    requires
        spec_le(angle_tolerance, wider_angle),
        spec_le(distance_tolerance, wider_distance),
        sighting.spec_shared_len(angle_tolerance, distance_tolerance) is Some,
    ensures
        sighting.spec_shared_len(wider_angle, wider_distance) == sighting.spec_shared_len(
            angle_tolerance,
            distance_tolerance,
        ),
{
    lemma_order_is_transitive(
        spec_magnitude(sighting.pair.angle_difference),
        angle_tolerance,
        wider_angle,
    );
    lemma_order_is_transitive(sighting.distance, distance_tolerance, wider_distance);
}

/// A segment of which an angle is not a number is matched to nothing.
pub proof fn lemma_undefined_angle_is_discarded(
    sighting: Sighting,
    angle_tolerance: u64,
    distance_tolerance: u64,
)
    requires
        spec_is_nan(sighting.pair.angle_difference),
    ensures
        sighting.spec_shared_len(angle_tolerance, distance_tolerance) is None,
{
}

} // verus!
