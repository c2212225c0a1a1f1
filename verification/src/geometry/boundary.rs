//! Parameter intervals on a curve.

use vstd::prelude::*;
use crate::math::Point1;

verus! {

/// An ordered pair of curve parameters that delimits a piece of a curve.
///
/// The order of the two ends is the direction of travel. A boundary and its
/// reverse cover the same parameters, travelled in opposite directions.
#[derive(Clone, Copy, Debug, PartialEq, Eq, Structural, Hash, PartialOrd, Ord)]
pub struct CurveBoundary {
    pub start: Point1,
    pub end: Point1,
}

impl CurveBoundary {
    /// The smaller of the two ends.
    pub open spec fn lo(self) -> int {
        if self.start.t <= self.end.t {
            self.start.t as int
        } else {
            self.end.t as int
        }
    }

    /// The larger of the two ends.
    pub open spec fn hi(self) -> int {
        if self.start.t <= self.end.t {
            self.end.t as int
        } else {
            self.start.t as int
        }
    }

    /// Whether the parameter lies on the closed interval between the ends.
    pub open spec fn covers(self, t: int) -> bool {
        self.lo() <= t <= self.hi()
    }

    pub open spec fn spec_reverse(self) -> CurveBoundary {
        CurveBoundary { start: self.end, end: self.start }
    }

    pub open spec fn spec_is_normalized(self) -> bool {
        self.start.t <= self.end.t
    }

    pub open spec fn spec_normalize(self) -> CurveBoundary {
        if self.spec_is_normalized() {
            self
        } else {
            self.spec_reverse()
        }
    }

    /// A boundary is empty when its two ends are the same: no parameter
    /// lies strictly between them. A boundary and its reverse are empty
    /// together.
    pub open spec fn spec_is_empty(self) -> bool {
        self.start.t == self.end.t
    }

    /// Strictly between the two ends, whichever way they are written.
    pub open spec fn spec_contains(self, point: Point1) -> bool {
        self.lo() < point.t && point.t < self.hi()
    }

    /// Two boundaries overlap when their closed intervals share a parameter.
    pub open spec fn spec_overlaps(self, other: CurveBoundary) -> bool {
        self.lo() <= other.hi() && self.hi() >= other.lo()
    }

    /// The smallest normalized boundary that covers both.
    pub open spec fn spec_union(self, other: CurveBoundary) -> CurveBoundary {
        CurveBoundary {
            start: if self.lo() <= other.lo() {
                self.spec_normalize().start
            } else {
                other.spec_normalize().start
            },
            end: if self.hi() >= other.hi() {
                self.spec_normalize().end
            } else {
                other.spec_normalize().end
            },
        }
    }

    /// What both cover, running from the larger lower end to the smaller
    /// upper end. Where the two share one parameter or none, the result is
    /// empty.
    pub open spec fn spec_subset(self, other: CurveBoundary) -> CurveBoundary {
        let start = if self.lo() >= other.lo() {
            self.spec_normalize().start
        } else {
            other.spec_normalize().start
        };
        let end = if self.hi() <= other.hi() {
            self.spec_normalize().end
        } else {
            other.spec_normalize().end
        };
        if start.t <= end.t {
            CurveBoundary { start, end }
        } else {
            CurveBoundary { start, end: start }
        }
    }

    pub fn new(start: Point1, end: Point1) -> (b: CurveBoundary)
        ensures
            b.start == start,
            b.end == end,
    {
        CurveBoundary { start, end }
    }

    /// Swap the two ends.
    pub fn reverse(self) -> (r: CurveBoundary)
        ensures
            r == self.spec_reverse(),
    {
        CurveBoundary { start: self.end, end: self.start }
    }

    pub fn is_normalized(&self) -> (b: bool)
        ensures
            b == self.spec_is_normalized(),
    {
        self.start.t <= self.end.t
    }

    /// The same interval, written with the smaller end first.
    pub fn normalize(self) -> (r: CurveBoundary)
        ensures
            r == self.spec_normalize(),
            r.start.t == self.lo(),
            r.end.t == self.hi(),
    {
        if self.is_normalized() {
            self
        } else {
            self.reverse()
        }
    }

    pub fn is_empty(&self) -> (b: bool)
        ensures
            b == self.spec_is_empty(),
    {
        self.start.t == self.end.t
    }

    pub fn contains(&self, point: Point1) -> (b: bool)
        ensures
            b == self.spec_contains(point),
    {
        let n = self.normalize();
        n.start.t < point.t && point.t < n.end.t
    }

    pub fn overlaps(&self, other: &CurveBoundary) -> (b: bool)
        ensures
            b == self.spec_overlaps(*other),
    {
        let a = self.normalize();
        let o = other.normalize();
        a.start.t <= o.end.t && a.end.t >= o.start.t
    }

    /// Join two overlapping boundaries into the one that covers both.
    pub fn union(self, other: CurveBoundary) -> (r: CurveBoundary)
        requires
            self.spec_overlaps(other),
        ensures
            r == self.spec_union(other),
            r.spec_is_normalized(),
            forall|t: int| r.covers(t) <==> self.covers(t) || other.covers(t),
    {
        let a = self.normalize();
        let o = other.normalize();
        let start = if a.start.t <= o.start.t { a.start } else { o.start };
        let end = if a.end.t >= o.end.t { a.end } else { o.end };
        CurveBoundary { start, end }
    }

    /// Cut the boundary down to what the other one covers too.
    pub fn subset(self, other: CurveBoundary) -> (r: CurveBoundary)
        ensures
            r == self.spec_subset(other),
            r.spec_is_normalized(),
            self.spec_overlaps(other) ==> forall|t: int|
                r.covers(t) <==> self.covers(t) && other.covers(t),
            !self.spec_overlaps(other) ==> r.spec_is_empty(),
    {
        let a = self.normalize();
        let o = other.normalize();
        let start = if a.start.t >= o.start.t { a.start } else { o.start };
        let end = if a.end.t <= o.end.t { a.end } else { o.end };
        if start.t <= end.t {
            CurveBoundary { start, end }
        } else {
            CurveBoundary { start, end: start }
        }
    }
}

} // verus!
