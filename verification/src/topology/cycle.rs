//! Cycles of half-edges and the direction in which they wind.

use vstd::prelude::*;
use crate::geometry::path::SurfacePath;
use crate::math::{product, Point2, WideSum, Winding};
use crate::topology::edge::HalfEdge;

verus! {

/// Where every half-edge starts, if all of that can be written exactly.
pub open spec fn start_positions(edges: Seq<HalfEdge>) -> Option<Seq<Point2>> {
    if forall|i: int| 0 <= i < edges.len() ==> (#[trigger] edges[i]).spec_start_position().is_some() {
        Some(Seq::new(edges.len(), |i: int| edges[i].spec_start_position().unwrap()))
    } else {
        None
    }
}

/// One term of the shoelace formula: the cross product of two corners that
/// follow one another.
pub open spec fn cross(a: Point2, b: Point2) -> int {
    a.u * b.v - b.u * a.v
}

/// The sum of the shoelace terms of the first `k` sides of a polygon.
pub open spec fn twice_area_upto(corners: Seq<Point2>, k: int) -> int
    decreases k,
{
    if k <= 0 {
        0
    } else {
        twice_area_upto(corners, k - 1) + cross(
            corners[k - 1],
            corners[k % (corners.len() as int)],
        )
    }
}

/// Twice the signed area that a polygon encloses: positive where its
/// corners run counter-clockwise.
pub open spec fn twice_area(corners: Seq<Point2>) -> int {
    twice_area_upto(corners, corners.len() as int)
}

/// The direction in which a circle is travelled by a half-edge that
/// follows it.
pub open spec fn circle_winding(edge: HalfEdge) -> Option<Winding> {
    match edge.path {
        SurfacePath::Line(_) => None,
        SurfacePath::Circle(circle) => {
            let forward = edge.boundary.start.t < edge.boundary.end.t;
            let positive = circle.spec_cross_sign() > 0;
            if forward == positive {
                Some(Winding::Ccw)
            } else {
                Some(Winding::Cw)
            }
        },
    }
}

/// The direction in which a polygon with the given corners winds, by the
/// sign of the area that it encloses. A polygon without area has no
/// winding.
pub open spec fn polygon_winding_of(corners: Seq<Point2>) -> Option<Winding> {
    if twice_area(corners) > 0 {
        Some(Winding::Ccw)
    } else if twice_area(corners) < 0 {
        Some(Winding::Cw)
    } else {
        None
    }
}

/// The direction in which a cycle winds.
///
/// A cycle of fewer than three half-edges winds as the circle of its first
/// half-edge does. A longer one is taken as the polygon of the positions
/// where its half-edges start, and winds by the sign of the area of that
/// polygon. A cycle that is empty, that encloses no area, or whose corners
/// cannot be written exactly, has no winding.
pub open spec fn winding_of(edges: Seq<HalfEdge>) -> Option<Winding> {
    if edges.len() == 0 {
        None
    } else if edges.len() < 3 {
        circle_winding(edges[0])
    } else {
        match start_positions(edges) {
            None => None,
            Some(corners) => polygon_winding_of(corners),
        }
    }
}

/// The half-edges of a cycle that is travelled the other way: in opposite
/// order, each within its reversed boundary, and each starting at the
/// vertex at which it ended before, which is where the next one started.
pub open spec fn reversed_edges(edges: Seq<HalfEdge>) -> Seq<HalfEdge> {
    Seq::new(
        edges.len(),
        |i: int|
            {
                let j = edges.len() - 1 - i;
                let current = edges[j];
                let next = edges[(j + 1) % (edges.len() as int)];
                HalfEdge {
                    path: current.path,
                    boundary: current.boundary.spec_reverse(),
                    curve: current.curve,
                    start_vertex: next.start_vertex,
                    global_form: current.global_form,
                }
            },
    )
}

/// A cycle of connected half-edges
#[derive(Clone, Debug, PartialEq, Eq, Hash)]
pub struct Cycle {
    half_edges: Vec<HalfEdge>,
}

impl View for Cycle {
    type V = Seq<HalfEdge>;

    closed spec fn view(&self) -> Seq<HalfEdge> {
        self.half_edges@
    }
}

impl Cycle {
    /// Create a cycle from half-edges, in the order of travel.
    pub fn new(half_edges: Vec<HalfEdge>) -> (c: Cycle)
        ensures
            c@ == half_edges@,
    {
        Cycle { half_edges }
    }

    /// Access the half-edges that make up the cycle
    pub fn half_edges(&self) -> (r: &Vec<HalfEdge>)
        ensures
            r@ == self@,
    {
        &self.half_edges
    }

    /// The half-edges that make up the cycle, by value
    pub fn into_half_edges(self) -> (r: Vec<HalfEdge>)
        ensures
            r@ == self@,
    {
        self.half_edges
    }

    /// The number of half-edges in the cycle
    pub fn len(&self) -> (n: usize)
        ensures
            n == self@.len(),
    {
        self.half_edges.len()
    }

    pub fn is_empty(&self) -> (b: bool)
        ensures
            b == (self@.len() == 0),
    {
        self.half_edges.len() == 0
    }

    /// Whether both cycles are made of the same half-edges in the same
    /// order.
    pub fn same_as(&self, other: &Cycle) -> (b: bool)
        ensures
            b == (self@ == other@),
    {
        if self.half_edges.len() != other.half_edges.len() {
            return false;
        }
        let mut i: usize = 0;
        while i < self.half_edges.len()
            invariant
                i <= self.half_edges.len(),
                self.half_edges.len() == other.half_edges.len(),
                forall|j: int| 0 <= j < i ==> self@[j] == other@[j],
            decreases self.half_edges.len() - i,
        {
            if !self.half_edges[i].same_as(&other.half_edges[i]) {
                return false;
            }
            i += 1;
        }
        proof {
            assert(self@ =~= other@);
        }
        true
    }

    /// A copy with the same half-edges.
    pub fn duplicate(&self) -> (c: Cycle)
        ensures
            c@ == self@,
    {
        let mut out: Vec<HalfEdge> = Vec::new();
        let mut i: usize = 0;
        while i < self.half_edges.len()
            invariant
                i <= self.half_edges.len(),
                out@ == self@.subrange(0, i as int),
            decreases self.half_edges.len() - i,
        {
            out.push(self.half_edges[i].clone());
            proof {
                assert(self@.subrange(0, i + 1) =~= self@.subrange(0, i as int).push(
                    self@[i as int],
                ));
            }
            i += 1;
        }
        proof {
            assert(self@.subrange(0, self@.len() as int) =~= self@);
        }
        Cycle { half_edges: out }
    }

    /// The same cycle, travelled the other way.
    pub fn reverse(&self) -> (c: Cycle)
        ensures
            c@ == reversed_edges(self@),
    {
        let n = self.half_edges.len();
        let mut out: Vec<HalfEdge> = Vec::new();
        let mut j: usize = n;
        while j > 0
            invariant
                n == self@.len(),
                j <= n,
                out@.len() == n - j,
                forall|i: int| 0 <= i < out@.len() ==> out@[i] == reversed_edges(self@)[i],
            decreases j,
        {
            j -= 1;
            let next: usize = if j + 1 == n {
                0
            } else {
                j + 1
            };
            proof {
                assert((j + 1) % (n as int) == next) by {
                    if j + 1 < n {
                        vstd::arithmetic::div_mod::lemma_small_mod((j + 1) as nat, n as nat);
                    } else {
                        vstd::arithmetic::div_mod::lemma_mod_self_0(n as int);
                    }
                }
            }
            let current = &self.half_edges[j];
            out.push(
                HalfEdge::new(
                    current.path,
                    current.boundary.reverse(),
                    current.curve.clone(),
                    self.half_edges[next].start_vertex.clone(),
                    current.global_form.clone(),
                ),
            );
        }
        proof {
            assert(out@ =~= reversed_edges(self@));
        }
        Cycle { half_edges: out }
    }

    /// The corners of the cycle taken as a polygon.
    fn corners(&self) -> (r: Option<Vec<Point2>>)
        ensures
            r.is_some() == start_positions(self@).is_some(),
            r.is_some() ==> r.unwrap()@ == start_positions(self@).unwrap(),
    {
        let mut out: Vec<Point2> = Vec::new();
        let mut i: usize = 0;
        while i < self.half_edges.len()
            invariant
                i <= self.half_edges.len(),
                out@.len() == i,
                forall|j: int|
                    0 <= j < i ==> (#[trigger] self@[j]).spec_start_position() == Some(out@[j]),
            decreases self.half_edges.len() - i,
        {
            match self.half_edges[i].start_position() {
                None => {
                    return None;
                },
                Some(p) => {
                    out.push(p);
                },
            }
            i += 1;
        }
        proof {
            assert(out@ =~= start_positions(self@).unwrap());
        }
        Some(out)
    }

    /// The direction in which the cycle winds, if it has one.
    pub fn winding(&self) -> (w: Option<Winding>)
        ensures
            w == winding_of(self@),
    {
        let n = self.half_edges.len();
        if n == 0 {
            return None;
        }
        if n < 3 {
            let first = &self.half_edges[0];
            return match first.path {
                SurfacePath::Line(_) => None,
                SurfacePath::Circle(circle) => {
                    let forward = first.boundary.start.t < first.boundary.end.t;
                    let positive = circle.cross_sign() > 0;
                    if forward == positive {
                        Some(Winding::Ccw)
                    } else {
                        Some(Winding::Cw)
                    }
                },
            };
        }
        match self.corners() {
            None => None,
            Some(corners) => polygon_winding(&corners),
        }
    }
}

/// The direction in which a polygon with the given corners winds.
///
/// This is for cycles whose corners are known from elsewhere, such as
/// cycles that hold arcs of circles.
pub fn polygon_winding(corners: &Vec<Point2>) -> (w: Option<Winding>)
    ensures
        w == polygon_winding_of(corners@),
{
    let n = corners.len();
    let mut sum = WideSum::zero();
    let mut k: usize = 0;
    while k < n
        invariant
            n == corners@.len(),
            k <= n,
            sum.terms() == k,
            sum.value() == twice_area_upto(corners@, k as int),
        decreases n - k,
    {
        let a = corners[k];
        let next: usize = if k + 1 == n {
            0
        } else {
            k + 1
        };
        let b = corners[next];
        let term: i128 = product(a.u, b.v) - product(b.u, a.v);
        proof {
            assert((k + 1) % (n as int) == next) by {
                if k + 1 < n {
                    vstd::arithmetic::div_mod::lemma_small_mod((k + 1) as nat, n as nat);
                } else {
                    vstd::arithmetic::div_mod::lemma_mod_self_0(n as int);
                }
            }
            assert(twice_area_upto(corners@, k + 1) == twice_area_upto(corners@, k as int) + cross(
                corners@[k as int],
                corners@[(k + 1) % (n as int)],
            ));
        }
        sum.add_term(term);
        k += 1;
    }
    let sign = sum.sign();
    if sign > 0 {
        Some(Winding::Ccw)
    } else if sign < 0 {
        Some(Winding::Cw)
    } else {
        None
    }
}

/// Whether a cycle is a closed polygon: it has three half-edges or more,
/// the positions where they start can be written, and each ends where the
/// next one starts, the last where the first starts.
pub open spec fn is_closed_polygon(edges: Seq<HalfEdge>) -> bool {
    &&& edges.len() >= 3
    &&& forall|i: int|
        0 <= i < edges.len() ==> (#[trigger] edges[i]).spec_start_position().is_some()
            && edges[i].spec_end_position() == edges[(i + 1) % (edges.len() as int)].spec_start_position()
}

/// The corners of a polygon that is travelled the other way: the first
/// corner, then the others from the last to the second.
pub open spec fn reversed_corners(corners: Seq<Point2>) -> Seq<Point2> {
    Seq::new(corners.len(), |i: int| corners[(corners.len() - i) % (corners.len() as int)])
}

proof fn lemma_index_after(i: int, n: int)
    requires
        0 <= i < n,
    ensures
        (i + 1) % n == if i + 1 == n {
            0
        } else {
            i + 1
        },
        (n - i) % n == if i == 0 {
            0
        } else {
            n - i
        },
{
    if i + 1 < n {
        vstd::arithmetic::div_mod::lemma_small_mod((i + 1) as nat, n as nat);
    } else {
        vstd::arithmetic::div_mod::lemma_mod_self_0(n);
    }
    if i == 0 {
        vstd::arithmetic::div_mod::lemma_mod_self_0(n);
    } else {
        vstd::arithmetic::div_mod::lemma_small_mod((n - i) as nat, n as nat);
    }
}

/// The shoelace terms of the reversed polygon are the negated terms of
/// the polygon, in opposite order.
proof fn lemma_reversed_area_upto(corners: Seq<Point2>, m: int)
    requires
        corners.len() >= 1,
        0 <= m <= corners.len(),
    ensures
        twice_area_upto(reversed_corners(corners), m) == twice_area_upto(
            corners,
            corners.len() - m,
        ) - twice_area(corners),
    decreases m,
{
    let n = corners.len() as int;
    let turned = reversed_corners(corners);
    if m > 0 {
        lemma_reversed_area_upto(corners, m - 1);
        let i = m - 1;
        let k = n - 1 - i;
        lemma_index_after(i, n);
        lemma_index_after(k, n);
        if i + 1 < n {
            lemma_index_after(i + 1, n);
        } else {
            lemma_index_after(0, n);
        }
        assert(turned[i] == corners[(k + 1) % n]);
        assert(turned[(i + 1) % n] == corners[k]);
        assert(cross(turned[i], turned[(i + 1) % n]) == -cross(corners[k], corners[(k + 1) % n]));
        assert(twice_area_upto(corners, k + 1) == twice_area_upto(corners, k) + cross(
            corners[k],
            corners[(k + 1) % n],
        ));
    }
}

/// A polygon that is travelled the other way encloses the negated area.
pub proof fn lemma_reversed_area(corners: Seq<Point2>)
    requires
        corners.len() >= 1,
    ensures
        twice_area(reversed_corners(corners)) == -twice_area(corners),
{
    lemma_reversed_area_upto(corners, corners.len() as int);
}

/// A closed polygon that is travelled the other way winds the other way,
/// and has no winding if the polygon has none.
pub proof fn lemma_reverse_flips_winding(edges: Seq<HalfEdge>)
    requires
        is_closed_polygon(edges),
    ensures
        winding_of(reversed_edges(edges)) == match winding_of(edges) {
            Some(winding) => Some(winding.spec_reverse()),
            None => None,
        },
{
    let n = edges.len() as int;
    let turned = reversed_edges(edges);
    let corners = start_positions(edges).unwrap();
    assert forall|i: int| 0 <= i < n implies (#[trigger] turned[i]).spec_start_position() == Some(
        reversed_corners(corners)[i],
    ) by {
        let j = n - 1 - i;
        lemma_index_after(j, n);
        lemma_index_after(i, n);
        assert(turned[i].spec_start_position() == edges[j].spec_end_position());
        assert(edges[j].spec_end_position() == edges[(j + 1) % n].spec_start_position());
        assert((j + 1) % n == (n - i) % n);
    }
    assert(start_positions(turned).unwrap() =~= reversed_corners(corners));
    lemma_reversed_area(corners);
}

} // verus!
