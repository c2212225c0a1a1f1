//! Bounding volumes of objects.

use vstd::prelude::*;
use crate::geometry::boundary::CurveBoundary;
use crate::geometry::path::{Circle2, Line2, SurfacePath};
use crate::geometry::table::{Geometry, HalfEdgeGeom};
use crate::math::{fits, product, Point2};
use crate::storage::Handle;
use crate::topology::edge::HalfEdge;

verus! {

/// An axis-aligned bounding box on a surface.
#[derive(Clone, Copy, Debug, PartialEq, Eq, Structural, Hash)]
pub struct Aabb2 {
    pub min: Point2,
    pub max: Point2,
}

/// Whether `r` is the square root of `s`, rounded up: the smallest number
/// whose square is `s` at least.
pub open spec fn is_root_up(s: int, r: int) -> bool {
    r >= 0 && r * r >= s && (r == 0 || (r - 1) * (r - 1) < s)
}

/// The square root of a number, rounded up.
pub open spec fn root_up(s: int) -> int {
    choose|r: int| is_root_up(s, r)
}

/// There is one square root rounded up, and no other.
pub proof fn lemma_root_up_unique(s: int, r1: int, r2: int)
    requires
        is_root_up(s, r1),
        is_root_up(s, r2),
    ensures
        r1 == r2,
{
    if r1 < r2 {
        assert((r2 - 1) * (r2 - 1) >= r1 * r1) by (nonlinear_arith)
            requires
                0 <= r1 <= r2 - 1,
        ;
    } else if r2 < r1 {
        assert((r1 - 1) * (r1 - 1) >= r2 * r2) by (nonlinear_arith)
            requires
                0 <= r2 <= r1 - 1,
        ;
    }
}

/// The radius of a circle: the length of its first axis, rounded up to a
/// whole number. A box of this radius holds the circle.
pub open spec fn radius_of(circle: Circle2) -> int {
    root_up(circle.a.u * circle.a.u + circle.a.v * circle.a.v)
}

/// The box around a whole circle, if its corners can be written.
pub open spec fn circle_box(circle: Circle2) -> Option<Aabb2> {
    let r = radius_of(circle);
    if fits(circle.center.u - r) && fits(circle.center.u + r) && fits(circle.center.v - r)
        && fits(circle.center.v + r) {
        Some(
            Aabb2 {
                min: Point2 { u: (circle.center.u - r) as i64, v: (circle.center.v - r) as i64 },
                max: Point2 { u: (circle.center.u + r) as i64, v: (circle.center.v + r) as i64 },
            },
        )
    } else {
        None
    }
}

/// The smallest box that holds two points.
pub open spec fn box_of_points(a: Point2, b: Point2) -> Aabb2 {
    Aabb2 {
        min: Point2 {
            u: if a.u <= b.u {
                a.u
            } else {
                b.u
            },
            v: if a.v <= b.v {
                a.v
            } else {
                b.v
            },
        },
        max: Point2 {
            u: if a.u >= b.u {
                a.u
            } else {
                b.u
            },
            v: if a.v >= b.v {
                a.v
            } else {
                b.v
            },
        },
    }
}

/// The box around the piece of a line within a boundary, if both of its
/// ends can be written.
pub open spec fn line_box(line: Line2, boundary: CurveBoundary) -> Option<Aabb2> {
    let start = line.spec_point(boundary.start.t as int);
    let end = line.spec_point(boundary.end.t as int);
    if fits(start.0) && fits(start.1) && fits(end.0) && fits(end.1) {
        Some(
            box_of_points(
                Point2 { u: start.0 as i64, v: start.1 as i64 },
                Point2 { u: end.0 as i64, v: end.1 as i64 },
            ),
        )
    } else {
        None
    }
}

/// The box around a half-edge: around the whole circle where it follows a
/// circle, around its two ends where it follows a line.
pub open spec fn half_edge_box(geometry: HalfEdgeGeom) -> Option<Aabb2> {
    match geometry.path {
        SurfacePath::Circle(circle) => circle_box(circle),
        SurfacePath::Line(line) => line_box(line, geometry.boundary),
    }
}

impl Aabb2 {
    /// The smallest box that holds two points.
    pub fn from_points(a: Point2, b: Point2) -> (r: Aabb2)
        ensures
            r == box_of_points(a, b),
    {
        Aabb2 {
            min: Point2 {
                u: if a.u <= b.u {
                    a.u
                } else {
                    b.u
                },
                v: if a.v <= b.v {
                    a.v
                } else {
                    b.v
                },
            },
            max: Point2 {
                u: if a.u >= b.u {
                    a.u
                } else {
                    b.u
                },
                v: if a.v >= b.v {
                    a.v
                } else {
                    b.v
                },
            },
        }
    }
}

/// The square of a coordinate.
fn square(x: i64) -> (s: u128)
    ensures
        s == x * x,
        s <= 0x4000_0000_0000_0000_0000_0000_0000_0000,
{
    let p = product(x, x);
    assert(x * x >= 0) by (nonlinear_arith);
    p as u128
}

/// The square root of a number, rounded up.
fn ceil_sqrt(s: u128) -> (r: u128)
    requires
        s <= 0x8000_0000_0000_0000_0000_0000_0000_0000,
    ensures
        r == root_up(s as int),
        is_root_up(s as int, r as int),
        r <= 0xFFFF_FFFF_FFFF_FFFF,
{
    if s == 0 {
        proof {
            assert(is_root_up(0, 0));
            lemma_root_up_unique(0, 0, root_up(0));
        }
        return 0;
    }
    let mut lo: u128 = 0;
    let mut hi: u128 = 0xFFFF_FFFF_FFFF_FFFF;
    while hi - lo > 1
        invariant
            lo < hi <= 0xFFFF_FFFF_FFFF_FFFF,
            lo * lo < s <= hi * hi,
        decreases hi - lo,
    {
        let mid: u128 = lo + (hi - lo) / 2;
        assert(mid * mid <= 0xFFFF_FFFF_FFFF_FFFF * 0xFFFF_FFFF_FFFF_FFFF) by (nonlinear_arith)
            requires
                0 <= mid <= 0xFFFF_FFFF_FFFF_FFFF,
        ;
        if mid * mid >= s {
            hi = mid;
        } else {
            lo = mid;
        }
    }
    proof {
        assert(is_root_up(s as int, hi as int));
        lemma_root_up_unique(s as int, hi as int, root_up(s as int));
    }
    hi
}

fn circle_aabb(circle: &Circle2) -> (r: Option<Aabb2>)
    ensures
        r == circle_box(*circle),
{
    let radius: i128 = ceil_sqrt(square(circle.a.u) + square(circle.a.v)) as i128;
    let min_u: i128 = (circle.center.u as i128) - radius;
    let max_u: i128 = (circle.center.u as i128) + radius;
    let min_v: i128 = (circle.center.v as i128) - radius;
    let max_v: i128 = (circle.center.v as i128) + radius;
    if min_u < (i64::MIN as i128) || min_v < (i64::MIN as i128) || max_u > (i64::MAX as i128)
        || max_v > (i64::MAX as i128) {
        return None;
    }
    Some(
        Aabb2 {
            min: Point2 { u: min_u as i64, v: min_v as i64 },
            max: Point2 { u: max_u as i64, v: max_v as i64 },
        },
    )
}

impl Handle<HalfEdge> {
    /// Compute an axis-aligned bounding box for the half-edge.
    ///
    /// For a half-edge on a circle this is the box of the whole circle,
    /// whatever the boundary of the half-edge. There is no box where its
    /// corners cannot be written.
    pub fn aabb(&self, geometry: &Geometry) -> (r: Option<Aabb2>)
        requires
            geometry.half_edges.has(*self),
        ensures
            r == half_edge_box(geometry.half_edges.of(*self)),
    {
        let half_edge = geometry.of_half_edge(self);
        match half_edge.path {
            SurfacePath::Circle(circle) => circle_aabb(&circle),
            SurfacePath::Line(line) => {
                let start = line.point_from_line_coords(half_edge.boundary.start);
                let end = line.point_from_line_coords(half_edge.boundary.end);
                match (start, end) {
                    (Some(start), Some(end)) => Some(Aabb2::from_points(start, end)),
                    _ => None,
                }
            },
        }
    }
}

} // verus!
