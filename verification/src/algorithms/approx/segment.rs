//! One piece of a curve approximation.

use vstd::prelude::*;
use crate::algorithms::approx::points::{ApproxPoint, CurveApproxPoints};
use crate::geometry::boundary::CurveBoundary;

verus! {

/// What a segment is, as a value: the boundary that it covers and its
/// points in the order of travel.
pub ghost struct SegmentModel {
    pub boundary: CurveBoundary,
    pub points: Seq<ApproxPoint>,
}

impl SegmentModel {
    /// The same piece of the curve, travelled the other way.
    pub open spec fn reverse(self) -> SegmentModel {
        SegmentModel { boundary: self.boundary.spec_reverse(), points: self.points.reverse() }
    }
}

/// A sequence of approximation points together with the boundary that it
/// covers.
#[derive(Clone, Debug, PartialEq, Eq, Hash, PartialOrd, Ord)]
pub struct CurveApproxSegment {
    pub boundary: CurveBoundary,
    pub points: CurveApproxPoints,
}

impl View for CurveApproxSegment {
    type V = SegmentModel;

    open spec fn view(&self) -> SegmentModel {
        SegmentModel { boundary: self.boundary, points: self.points@ }
    }
}

impl CurveApproxSegment {
    pub fn new(boundary: CurveBoundary, points: Vec<ApproxPoint>) -> (r: CurveApproxSegment)
        ensures
            r@ == (SegmentModel { boundary, points: points@ }),
    {
        CurveApproxSegment { boundary, points: CurveApproxPoints::from_vec(points) }
    }

    /// A copy that covers the same boundary with the same points.
    pub fn duplicate(&self) -> (r: CurveApproxSegment)
        ensures
            r@ == self@,
    {
        CurveApproxSegment { boundary: self.boundary, points: self.points.duplicate() }
    }

    /// Whether both cover the same boundary with the same points.
    pub fn same_as(&self, other: &CurveApproxSegment) -> (b: bool)
        ensures
            b == (self@ == other@),
    {
        self.boundary.start.t == other.boundary.start.t && self.boundary.end.t
            == other.boundary.end.t && self.points.same_as(&other.points)
    }

    pub fn is_empty(&self) -> (b: bool)
        ensures
            b == self@.boundary.spec_is_empty(),
    {
        self.boundary.is_empty()
    }

    pub fn is_normalized(&self) -> (b: bool)
        ensures
            b == self@.boundary.spec_is_normalized(),
    {
        self.boundary.is_normalized()
    }

    /// Turn the segment around: the boundary and the order of the points.
    pub fn reverse(&mut self)
        ensures
            final(self)@ == old(self)@.reverse(),
    {
        self.boundary = self.boundary.reverse();
        self.points.reverse();
    }
}

} // verus!
