//! The points of a curve approximation.

use vstd::prelude::*;
use crate::algorithms::sorting::{lemma_insert_index_unique, sort_seq};
use crate::geometry::boundary::CurveBoundary;
use crate::math::{Point1, Point3};

verus! {

/// A point of an approximation: where it lies on the curve, and where that
/// is in model space.
#[derive(Clone, Copy, Debug, PartialEq, Eq, Structural, Hash, PartialOrd, Ord)]
pub struct ApproxPoint {
    pub local_form: Point1,
    pub global_form: Point3,
}

impl ApproxPoint {
    /// Points are ordered by curve parameter first, then by model
    /// coordinates `x`, `y`, `z`.
    pub open spec fn spec_precedes(self, other: ApproxPoint) -> bool {
        let a = self;
        let b = other;
        a.local_form.t < b.local_form.t || (a.local_form.t == b.local_form.t && (
            a.global_form.x < b.global_form.x || (a.global_form.x == b.global_form.x && (
                a.global_form.y < b.global_form.y || (a.global_form.y == b.global_form.y
                    && a.global_form.z < b.global_form.z)))))
    }

    pub fn new(local_form: Point1, global_form: Point3) -> (p: ApproxPoint)
        ensures
            p.local_form == local_form,
            p.global_form == global_form,
    {
        ApproxPoint { local_form, global_form }
    }

    pub fn precedes(&self, other: &ApproxPoint) -> (b: bool)
        ensures
            b == self.spec_precedes(*other),
    {
        let a = self;
        let b = other;
        a.local_form.t < b.local_form.t || (a.local_form.t == b.local_form.t && (
            a.global_form.x < b.global_form.x || (a.global_form.x == b.global_form.x && (
                a.global_form.y < b.global_form.y || (a.global_form.y == b.global_form.y
                    && a.global_form.z < b.global_form.z)))))
    }
}

/// The order that approximation points are sorted by.
pub open spec fn point_lt() -> spec_fn(ApproxPoint, ApproxPoint) -> bool {
    |a: ApproxPoint, b: ApproxPoint| a.spec_precedes(b)
}

/// Sequences of points are ordered as words are in a dictionary: by the
/// first point in which they differ, and a sequence that another one
/// begins with comes before it.
pub open spec fn points_before(a: Seq<ApproxPoint>, b: Seq<ApproxPoint>) -> bool
    decreases a.len(),
{
    if b.len() == 0 {
        false
    } else if a.len() == 0 {
        true
    } else if a[0].spec_precedes(b[0]) {
        true
    } else if b[0].spec_precedes(a[0]) {
        false
    } else {
        points_before(a.drop_first(), b.drop_first())
    }
}

/// No sequence of points comes before itself.
pub proof fn lemma_points_before_irreflexive(a: Seq<ApproxPoint>)
    ensures
        !points_before(a, a),
    decreases a.len(),
{
    if a.len() > 0 {
        lemma_points_before_irreflexive(a.drop_first());
    }
}

/// What comes before a sequence comes before what that sequence comes
/// before.
pub proof fn lemma_points_before_transitive(
    a: Seq<ApproxPoint>,
    b: Seq<ApproxPoint>,
    c: Seq<ApproxPoint>,
)
    requires
        points_before(a, b),
        points_before(b, c),
    ensures
        points_before(a, c),
    decreases a.len(),
{
    if a.len() > 0 && b.len() > 0 && c.len() > 0 {
        if !a[0].spec_precedes(b[0]) && !b[0].spec_precedes(c[0]) {
            lemma_points_before_transitive(a.drop_first(), b.drop_first(), c.drop_first());
        }
    }
}

/// What does not come before a sequence does not come before what that
/// sequence does not come before.
pub proof fn lemma_points_not_before_transitive(
    a: Seq<ApproxPoint>,
    b: Seq<ApproxPoint>,
    c: Seq<ApproxPoint>,
)
    requires
        !points_before(a, b),
        !points_before(b, c),
    ensures
        !points_before(a, c),
    decreases a.len(),
{
    if a.len() > 0 && b.len() > 0 && c.len() > 0 {
        if !a[0].spec_precedes(b[0]) && !b[0].spec_precedes(a[0]) && !b[0].spec_precedes(c[0])
            && !c[0].spec_precedes(b[0]) {
            lemma_points_not_before_transitive(a.drop_first(), b.drop_first(), c.drop_first());
        }
    }
}

/// Of two different sequences of points one comes before the other.
pub proof fn lemma_points_before_total(a: Seq<ApproxPoint>, b: Seq<ApproxPoint>)
    requires
        !points_before(a, b),
        !points_before(b, a),
    ensures
        a == b,
    decreases a.len(),
{
    if a.len() > 0 && b.len() > 0 {
        lemma_points_before_total(a.drop_first(), b.drop_first());
        assert(a =~= seq![a[0]] + a.drop_first());
        assert(b =~= seq![b[0]] + b.drop_first());
    } else {
        assert(a =~= b);
    }
}

/// The points that lie strictly inside a boundary.
pub open spec fn inside(boundary: CurveBoundary) -> spec_fn(ApproxPoint) -> bool {
    |p: ApproxPoint| boundary.spec_contains(p.local_form)
}

/// The points that do not lie strictly inside a boundary.
pub open spec fn outside(boundary: CurveBoundary) -> spec_fn(ApproxPoint) -> bool {
    |p: ApproxPoint| !boundary.spec_contains(p.local_form)
}

/// What is left of `own` when the points of another segment are merged in:
/// the points that the other boundary does not contain, then the other
/// points, all in ascending order.
pub open spec fn merged_points(
    own: Seq<ApproxPoint>,
    other: Seq<ApproxPoint>,
    other_boundary: CurveBoundary,
) -> Seq<ApproxPoint> {
    sort_seq(own.filter(outside(other_boundary)) + other, point_lt())
}

/// The order of approximation points is a strict order, and a total one:
/// of two different points one is below the other.
pub proof fn lemma_point_lt_is_order()
    ensures
        crate::algorithms::sorting::is_strict_weak_order(point_lt()),
        forall|a: ApproxPoint, b: ApproxPoint|
            !#[trigger] point_lt()(a, b) && !point_lt()(b, a) ==> a == b,
{
}

/// Copy a vector of points.
pub fn copy_points(v: &Vec<ApproxPoint>) -> (out: Vec<ApproxPoint>)
    ensures
        out@ == v@,
{
    let mut out: Vec<ApproxPoint> = Vec::new();
    let mut i: usize = 0;
    while i < v.len()
        invariant
            i <= v.len(),
            out@ == v@.subrange(0, i as int),
        decreases v.len() - i,
    {
        out.push(v[i]);
        proof {
            assert(v@.subrange(0, i + 1) =~= v@.subrange(0, i as int).push(v@[i as int]));
        }
        i += 1;
    }
    proof {
        assert(v@.subrange(0, v.len() as int) =~= v@);
    }
    out
}

/// Sort points in ascending order.
pub fn sort_points(v: &Vec<ApproxPoint>) -> (out: Vec<ApproxPoint>)
    ensures
        out@ == sort_seq(v@, point_lt()),
{
    let mut out: Vec<ApproxPoint> = Vec::new();
    let mut k: usize = v.len();
    proof {
        assert(v@.subrange(v.len() as int, v.len() as int) =~= Seq::<ApproxPoint>::empty());
    }
    while k > 0
        invariant
            k <= v.len(),
            out@ == sort_seq(v@.subrange(k as int, v.len() as int), point_lt()),
        decreases k,
    {
        k -= 1;
        let x = v[k];
        let mut p: usize = 0;
        while p < out.len() && out[p].precedes(&x)
            invariant
                p <= out.len(),
                forall|i: int| 0 <= i < p ==> point_lt()(#[trigger] out@[i], x),
            decreases out.len() - p,
        {
            p += 1;
        }
        proof {
            lemma_insert_index_unique(x, out@, p as int, point_lt());
            let sub = v@.subrange(k as int, v.len() as int);
            assert(sub.drop_first() =~= v@.subrange(k + 1, v.len() as int));
            assert(sub[0] == x);
        }
        out.insert(p, x);
    }
    proof {
        assert(v@.subrange(0, v.len() as int) =~= v@);
    }
    out
}

/// The points of one piece of a curve approximation, in the order of travel.
#[derive(Clone, Debug, Default, PartialEq, Eq, Hash, PartialOrd, Ord)]
pub struct CurveApproxPoints {
    pub inner: Vec<ApproxPoint>,
}

impl View for CurveApproxPoints {
    type V = Seq<ApproxPoint>;

    open spec fn view(&self) -> Seq<ApproxPoint> {
        self.inner@
    }
}

impl CurveApproxPoints {
    pub fn new() -> (r: CurveApproxPoints)
        ensures
            r@ == Seq::<ApproxPoint>::empty(),
    {
        CurveApproxPoints { inner: Vec::new() }
    }

    pub fn from_vec(points: Vec<ApproxPoint>) -> (r: CurveApproxPoints)
        ensures
            r@ == points@,
    {
        CurveApproxPoints { inner: points }
    }

    /// A copy that holds the same points.
    pub fn duplicate(&self) -> (r: CurveApproxPoints)
        ensures
            r@ == self@,
    {
        CurveApproxPoints { inner: copy_points(&self.inner) }
    }

    pub fn is_empty(&self) -> (b: bool)
        ensures
            b == (self@.len() == 0),
    {
        self.inner.len() == 0
    }

    pub fn len(&self) -> (n: usize)
        ensures
            n == self@.len(),
    {
        self.inner.len()
    }

    /// Whether both hold the same points in the same order.
    pub fn same_as(&self, other: &CurveApproxPoints) -> (b: bool)
        ensures
            b == (self@ == other@),
    {
        if self.inner.len() != other.inner.len() {
            return false;
        }
        let mut i: usize = 0;
        while i < self.inner.len()
            invariant
                i <= self.inner.len(),
                self.inner.len() == other.inner.len(),
                forall|j: int| 0 <= j < i ==> self@[j] == other@[j],
            decreases self.inner.len() - i,
        {
            if self.inner[i] != other.inner[i] {
                return false;
            }
            i += 1;
        }
        proof {
            assert(self@ =~= other@);
        }
        true
    }

    /// Whether these points come before the others, as words do in a
    /// dictionary.
    pub fn comes_before(&self, other: &CurveApproxPoints) -> (b: bool)
        ensures
            b == points_before(self@, other@),
    {
        let mut i: usize = 0;
        proof {
            assert(self@.subrange(0, self@.len() as int) =~= self@);
            assert(other@.subrange(0, other@.len() as int) =~= other@);
        }
        while i < self.inner.len() && i < other.inner.len()
            invariant
                i <= self@.len(),
                i <= other@.len(),
                points_before(self@, other@) == points_before(
                    self@.subrange(i as int, self@.len() as int),
                    other@.subrange(i as int, other@.len() as int),
                ),
            decreases self.inner.len() - i,
        {
            let ghost a = self@.subrange(i as int, self@.len() as int);
            let ghost b = other@.subrange(i as int, other@.len() as int);
            proof {
                assert(a[0] == self@[i as int]);
                assert(b[0] == other@[i as int]);
                assert(a.drop_first() =~= self@.subrange(i + 1, self@.len() as int));
                assert(b.drop_first() =~= other@.subrange(i + 1, other@.len() as int));
            }
            if self.inner[i].precedes(&other.inner[i]) {
                return true;
            }
            if other.inner[i].precedes(&self.inner[i]) {
                return false;
            }
            i += 1;
        }
        i < other.inner.len()
    }

    /// Turn the order of the points around.
    pub fn reverse(&mut self)
        ensures
            final(self)@ == old(self)@.reverse(),
    {
        let n: usize = self.inner.len();
        let mut out: Vec<ApproxPoint> = Vec::new();
        let mut k: usize = n;
        while k > 0
            invariant
                n == self.inner.len(),
                k <= n,
                self@ == old(self)@,
                out@.len() == n - k,
                forall|i: int| 0 <= i < out@.len() ==> out@[i] == self@[n - 1 - i],
            decreases k,
        {
            k -= 1;
            out.push(self.inner[k]);
        }
        proof {
            assert(out@ =~= old(self)@.reverse());
        }
        self.inner = out;
    }

    /// Keep only the points that lie strictly inside the boundary.
    pub fn make_subset(&mut self, boundary: CurveBoundary)
        ensures
            final(self)@ == old(self)@.filter(inside(boundary)),
    {
        let mut out: Vec<ApproxPoint> = Vec::new();
        let mut i: usize = 0;
        while i < self.inner.len()
            invariant
                i <= self.inner.len(),
                self@ == old(self)@,
                out@ == self@.subrange(0, i as int).filter(inside(boundary)),
            decreases self.inner.len() - i,
        {
            let p = self.inner[i];
            proof {
                let done = self@.subrange(0, i as int);
                assert(self@.subrange(0, i + 1) =~= done.push(p));
                done.lemma_filter_push(p, inside(boundary));
            }
            if boundary.contains(p.local_form) {
                out.push(p);
            }
            i += 1;
        }
        proof {
            assert(self@.subrange(0, self@.len() as int) =~= self@);
        }
        self.inner = out;
    }

    /// Merge the points of another segment in: points of this one that the
    /// other boundary contains give way to the other segment's points.
    pub fn merge(&mut self, other: &CurveApproxPoints, other_boundary: CurveBoundary)
        ensures
            final(self)@ == merged_points(old(self)@, other@, other_boundary),
            crate::algorithms::sorting::is_sorted(final(self)@, point_lt()),
    {
        proof {
            lemma_point_lt_is_order();
            crate::algorithms::sorting::lemma_sort_seq_properties(
                self@.filter(outside(other_boundary)) + other@,
                point_lt(),
            );
        }
        let mut all: Vec<ApproxPoint> = Vec::new();
        let mut i: usize = 0;
        while i < self.inner.len()
            invariant
                i <= self.inner.len(),
                self@ == old(self)@,
                all@ == self@.subrange(0, i as int).filter(outside(other_boundary)),
            decreases self.inner.len() - i,
        {
            let p = self.inner[i];
            proof {
                let done = self@.subrange(0, i as int);
                assert(self@.subrange(0, i + 1) =~= done.push(p));
                done.lemma_filter_push(p, outside(other_boundary));
            }
            if !other_boundary.contains(p.local_form) {
                all.push(p);
            }
            i += 1;
        }
        proof {
            assert(self@.subrange(0, self@.len() as int) =~= self@);
        }
        let ghost kept = all@;
        let mut j: usize = 0;
        while j < other.inner.len()
            invariant
                j <= other.inner.len(),
                all@ == kept + other@.subrange(0, j as int),
            decreases other.inner.len() - j,
        {
            all.push(other.inner[j]);
            proof {
                assert(kept + other@.subrange(0, j + 1) =~= (kept + other@.subrange(
                    0,
                    j as int,
                )).push(other@[j as int]));
            }
            j += 1;
        }
        proof {
            assert(other@.subrange(0, other@.len() as int) =~= other@);
        }
        self.inner = sort_points(&all);
    }
}

} // verus!
