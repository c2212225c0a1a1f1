//! Building half-edges and cycles.

use vstd::prelude::*;
use itertools::Itertools;
use crate::geometry::boundary::CurveBoundary;
use crate::geometry::path::{Line2, SurfacePath, FULL_TURN};
use crate::math::{fits, Point1, Point2, Vector2};
use crate::storage::Handle;
use crate::topology::cycle::Cycle;
use crate::topology::edge::HalfEdge;
use crate::topology::objects::Objects;

verus! {

/// Each value of a sequence paired with the one that follows it, the last
/// with the first.
pub open spec fn circular_pairs(points: Seq<Point2>) -> Seq<(Point2, Point2)> {
    Seq::new(points.len(), |i: int| (points[i], points[(i + 1) % (points.len() as int)]))
}

/// `circular_tuple_windows` of `itertools`, for pairs of points.
///
/// The iterator gives as many pairs as there are points: each point with
/// the one behind it, and the last point with the first. Of one point it
/// gives that point paired with itself, of no points nothing.
#[verifier::external_body]
fn circular_windows(points: &Vec<Point2>) -> (pairs: Vec<(Point2, Point2)>)
    ensures
        pairs@ == circular_pairs(points@),
{
    points.iter().copied().circular_tuple_windows().collect()
}

/// Whether the line segment between two points can be written: whether
/// their difference is a vector.
pub open spec fn is_segment(side: (Point2, Point2)) -> bool {
    fits(side.1.u - side.0.u) && fits(side.1.v - side.0.v)
}

/// Whether a half-edge is the line segment between two points, made of the
/// objects with the given number in their stores.
pub open spec fn is_line_segment(edge: HalfEdge, side: (Point2, Point2), number: SegmentIds) -> bool {
    &&& edge.path == SurfacePath::Line(
        Line2 {
            origin: side.0,
            direction: Vector2 { u: (side.1.u - side.0.u) as i64, v: (side.1.v - side.0.v) as i64 },
        },
    )
    &&& edge.boundary == CurveBoundary { start: Point1 { t: 0 }, end: Point1 { t: 1 } }
    &&& edge.curve.id() == number.curve
    &&& edge.start_vertex.id() == number.vertex
    &&& edge.global_form.id() == number.global_edge
}

/// The numbers of the three objects that a new half-edge is made of.
pub ghost struct SegmentIds {
    pub curve: nat,
    pub vertex: nat,
    pub global_edge: nat,
}

/// The numbers that the next objects get in their stores.
pub open spec fn next_ids(objects: Objects, offset: nat) -> SegmentIds {
    SegmentIds {
        curve: objects.curves@.len() + offset,
        vertex: objects.vertices@.len() + offset,
        global_edge: objects.global_edges@.len() + offset,
    }
}

/// Whether the stores hold `count` more curves, vertices and edges than
/// before, and what they held before. Of the half-edges this says nothing.
pub open spec fn grew_by(before: Objects, after: Objects, count: nat) -> bool {
    &&& after.curves@.len() == before.curves@.len() + count
    &&& after.vertices@.len() == before.vertices@.len() + count
    &&& after.global_edges@.len() == before.global_edges@.len() + count
    &&& after.curves@.subrange(0, before.curves@.len() as int) == before.curves@
    &&& after.vertices@.subrange(0, before.vertices@.len() as int) == before.vertices@
    &&& after.global_edges@.subrange(0, before.global_edges@.len() as int)
        == before.global_edges@
    &&& after.surfaces@ == before.surfaces@
}

/// Stores that were not touched grew by nothing.
pub proof fn lemma_grew_by_nothing(objects: Objects)
    ensures
        grew_by(objects, objects, 0),
{
    assert(objects.curves@.subrange(0, objects.curves@.len() as int) =~= objects.curves@);
    assert(objects.vertices@.subrange(0, objects.vertices@.len() as int) =~= objects.vertices@);
    assert(objects.global_edges@.subrange(0, objects.global_edges@.len() as int)
        =~= objects.global_edges@);
}

/// Stores that grew, and then grew again, grew by both together.
pub proof fn lemma_grew_by_more(before: Objects, mid: Objects, after: Objects, first: nat, more: nat)
    requires
        grew_by(before, mid, first),
        grew_by(mid, after, more),
    ensures
        grew_by(before, after, first + more),
{
    assert(after.curves@.subrange(0, before.curves@.len() as int) =~= mid.curves@.subrange(
        0,
        before.curves@.len() as int,
    ));
    assert(after.vertices@.subrange(0, before.vertices@.len() as int) =~= mid.vertices@.subrange(
        0,
        before.vertices@.len() as int,
    ));
    assert(after.global_edges@.subrange(0, before.global_edges@.len() as int)
        =~= mid.global_edges@.subrange(0, before.global_edges@.len() as int));
}

impl HalfEdge {
    /// Create a line segment between two points.
    ///
    /// The half-edge follows the line through the two points from
    /// parameter 0 to parameter 1. Its curve, its start vertex and its edge
    /// are new objects. There is no half-edge where the difference of the
    /// points cannot be written; nothing is stored then.
    pub fn line_segment(start: Point2, end: Point2, objects: &mut Objects) -> (r: Option<HalfEdge>)
        ensures
            r.is_some() <==> is_segment((start, end)),
            r.is_some() ==> is_line_segment(r.unwrap(), (start, end), next_ids(*old(objects), 0))
                && grew_by(*old(objects), *final(objects), 1),
            r.is_none() ==> grew_by(*old(objects), *final(objects), 0),
            final(objects).half_edges@ == old(objects).half_edges@,
    {
        match SurfacePath::line_from_points(start, end) {
            None => {
                proof {
                    lemma_grew_by_nothing(*objects);
                }
                None
            },
            Some((path, boundary)) => {
                let edge = Self::with_new_objects(path, boundary, objects);
                Some(edge)
            },
        }
    }

    /// Create a circle around a center with a radius.
    ///
    /// The half-edge goes once around the circle. Its curve, its start
    /// vertex and its edge are new objects.
    pub fn circle(center: Point2, radius: i64, objects: &mut Objects) -> (r: HalfEdge)
        ensures
            r.path == SurfacePath::Circle(
                crate::geometry::path::Circle2 {
                    center,
                    a: Vector2 { u: radius, v: 0 },
                    b: Vector2 { u: 0, v: radius },
                },
            ),
            r.boundary == (CurveBoundary { start: Point1 { t: 0 }, end: Point1 { t: FULL_TURN } }),
            r.curve.id() == old(objects).curves@.len(),
            r.start_vertex.id() == old(objects).vertices@.len(),
            r.global_form.id() == old(objects).global_edges@.len(),
            grew_by(*old(objects), *final(objects), 1),
            final(objects).half_edges@ == old(objects).half_edges@,
    {
        let path = SurfacePath::circle_from_center_and_radius(center, radius);
        let boundary = CurveBoundary { start: Point1 { t: 0 }, end: Point1 { t: FULL_TURN } };
        Self::with_new_objects(path, boundary, objects)
    }

    /// Create a half-edge on a path, of a new curve, a new start vertex and
    /// a new edge.
    pub fn with_new_objects(path: SurfacePath, boundary: CurveBoundary, objects: &mut Objects) -> (r:
        HalfEdge)
        ensures
            r.path == path,
            r.boundary == boundary,
            r.curve.id() == old(objects).curves@.len(),
            r.start_vertex.id() == old(objects).vertices@.len(),
            r.global_form.id() == old(objects).global_edges@.len(),
            grew_by(*old(objects), *final(objects), 1),
            final(objects).half_edges@ == old(objects).half_edges@,
    {
        let curve = objects.curves.insert(crate::topology::edge::Curve {  });
        let start_vertex = objects.vertices.insert(crate::topology::edge::Vertex {  });
        let global_form = objects.global_edges.insert(crate::topology::edge::GlobalEdge {  });
        proof {
            assert(objects.curves@.subrange(0, old(objects).curves@.len() as int) =~= old(objects).curves@);
            assert(objects.vertices@.subrange(0, old(objects).vertices@.len() as int) =~= old(objects).vertices@);
            assert(objects.global_edges@.subrange(0, old(objects).global_edges@.len() as int)
                =~= old(objects).global_edges@);
        }
        HalfEdge::new(path, boundary, curve, start_vertex, global_form)
    }
}

/// Whether the half-edges are the sides of the polygon with the given
/// corners, made of the objects that follow those in the stores.
pub open spec fn is_polygon(edges: Seq<HalfEdge>, corners: Seq<Point2>, objects: Objects) -> bool {
    &&& edges.len() == corners.len()
    &&& forall|i: int|
        0 <= i < edges.len() ==> is_line_segment(
            #[trigger] edges[i],
            circular_pairs(corners)[i],
            next_ids(objects, i as nat),
        )
}

/// Whether every side of the polygon with the given corners can be
/// written.
pub open spec fn all_segments(corners: Seq<Point2>) -> bool {
    forall|i: int| 0 <= i < corners.len() ==> is_segment(#[trigger] circular_pairs(corners)[i])
}

/// Build a [`Cycle`]
pub trait BuildCycle {
    /// Build an empty cycle
    fn empty() -> Cycle;

    /// Build a circle
    fn circle(center: Point2, radius: i64, objects: &mut Objects) -> Cycle;

    /// Build a polygon
    fn polygon(points: Vec<Point2>, objects: &mut Objects) -> Option<Cycle>;
}

impl BuildCycle for Cycle {
    fn empty() -> (c: Cycle)
        ensures
            c@ == Seq::<HalfEdge>::empty(),
    {
        Cycle::new(Vec::new())
    }

    fn circle(center: Point2, radius: i64, objects: &mut Objects) -> (c: Cycle)
        ensures
            c@.len() == 1,
            c@[0].path == SurfacePath::Circle(
                crate::geometry::path::Circle2 {
                    center,
                    a: Vector2 { u: radius, v: 0 },
                    b: Vector2 { u: 0, v: radius },
                },
            ),
            c@[0].boundary == (CurveBoundary {
                start: Point1 { t: 0 },
                end: Point1 { t: FULL_TURN },
            }),
            c@[0].curve.id() == old(objects).curves@.len(),
            c@[0].start_vertex.id() == old(objects).vertices@.len(),
            c@[0].global_form.id() == old(objects).global_edges@.len(),
            grew_by(*old(objects), *final(objects), 1),
            final(objects).half_edges@ == old(objects).half_edges@,
    {
        let circle = HalfEdge::circle(center, radius, objects);
        let mut edges: Vec<HalfEdge> = Vec::new();
        edges.push(circle);
        Cycle::new(edges)
    }

    /// The polygon with the given corners: one line segment from each
    /// corner to the next, and one from the last to the first.
    ///
    /// There is no polygon where a side cannot be written; nothing is
    /// stored then.
    fn polygon(points: Vec<Point2>, objects: &mut Objects) -> (r: Option<Cycle>)
        ensures
            r.is_some() <==> all_segments(points@),
            r.is_some() ==> is_polygon(r.unwrap()@, points@, *old(objects)) && grew_by(
                *old(objects),
                *final(objects),
                points@.len(),
            ),
            r.is_none() ==> grew_by(*old(objects), *final(objects), 0),
            final(objects).half_edges@ == old(objects).half_edges@,
    {
        let empty = Cycle::new(Vec::new());
        match extend_by_polygon(empty, &points, objects) {
            None => None,
            Some(cycle) => {
                proof {
                    let edges = cycle@;
                    assert(edges.subrange(0, edges.len() as int) =~= edges);
                }
                Some(cycle)
            },
        }
    }
}

/// Append the sides of a polygon to a cycle.
pub fn extend_by_polygon(cycle: Cycle, points: &Vec<Point2>, objects: &mut Objects) -> (r: Option<
    Cycle,
>)
    ensures
        r.is_some() <==> all_segments(points@),
        r.is_some() ==> {
            let edges = r.unwrap()@;
            &&& edges.len() == cycle@.len() + points@.len()
            &&& edges.subrange(0, cycle@.len() as int) == cycle@
            &&& is_polygon(
                edges.subrange(cycle@.len() as int, edges.len() as int),
                points@,
                *old(objects),
            )
            &&& grew_by(*old(objects), *final(objects), points@.len())
        },
        r.is_none() ==> grew_by(*old(objects), *final(objects), 0),
        final(objects).half_edges@ == old(objects).half_edges@,
{
    let sides = circular_windows(points);
    let n = sides.len();
    let mut k: usize = 0;
    while k < n
        invariant
            n == sides@.len(),
            sides@ == circular_pairs(points@),
            k <= n,
            forall|i: int| 0 <= i < k ==> is_segment(#[trigger] circular_pairs(points@)[i]),
        decreases n - k,
    {
        let (a, b) = sides[k];
        let du = crate::math::checked_affine(b.u, -1, a.u, 0, 0);
        let dv = crate::math::checked_affine(b.v, -1, a.v, 0, 0);
        if du.is_none() || dv.is_none() {
            proof {
                assert(!is_segment(circular_pairs(points@)[k as int]));
                lemma_grew_by_nothing(*objects);
            }
            return None;
        }
        k += 1;
    }
    let ghost before = cycle@;
    let mut edges = cycle.into_half_edges();
    let mut i: usize = 0;
    proof {
        assert(edges@.subrange(0, before.len() as int) =~= before);
        lemma_grew_by_nothing(*objects);
    }
    while i < n
        invariant
            n == sides@.len(),
            n == points@.len(),
            sides@ == circular_pairs(points@),
            all_segments(points@),
            i <= n,
            edges@.len() == before.len() + i,
            edges@.subrange(0, before.len() as int) == before,
            forall|j: int|
                0 <= j < i ==> is_line_segment(
                    #[trigger] edges@[before.len() + j],
                    circular_pairs(points@)[j],
                    next_ids(*old(objects), j as nat),
                ),
            grew_by(*old(objects), *objects, i as nat),
            objects.half_edges@ == old(objects).half_edges@,
        decreases n - i,
    {
        let (a, b) = sides[i];
        let ghost mid = *objects;
        let ghost so_far = edges@;
        proof {
            assert(is_segment(circular_pairs(points@)[i as int]));
        }
        let edge = HalfEdge::line_segment(a, b, objects);
        let edge = edge.unwrap();
        edges.push(edge);
        proof {
            assert(edges@.subrange(0, before.len() as int) =~= so_far.subrange(
                0,
                before.len() as int,
            ));
            assert forall|j: int| 0 <= j < i + 1 implies is_line_segment(
                #[trigger] edges@[before.len() + j],
                circular_pairs(points@)[j],
                next_ids(*old(objects), j as nat),
            ) by {
                if j < i {
                    assert(edges@[before.len() + j] == so_far[before.len() + j]);
                }
            }
            lemma_grew_by_more(*old(objects), mid, *objects, i as nat, 1);
        }
        i += 1;
    }
    let r = Cycle::new(edges);
    proof {
        let all = r@;
        let tail = all.subrange(before.len() as int, all.len() as int);
        assert forall|j: int| 0 <= j < tail.len() implies is_line_segment(
            #[trigger] tail[j],
            circular_pairs(points@)[j],
            next_ids(*old(objects), j as nat),
        ) by {
            assert(tail[j] == all[before.len() + j]);
        }
    }
    Some(r)
}

/// What a half-edge that connects to given edges is made from: the edge
/// before which it comes, the path that it follows and its boundary.
pub struct Connection {
    pub edge: HalfEdge,
    pub path: SurfacePath,
    pub boundary: CurveBoundary,
}

/// Whether the half-edges connect the given edges: each follows the path
/// and the boundary given with its edge, starts at the vertex where the
/// edge before that one starts, the first at that of the last, and is made
/// of a new curve and a new edge.
pub open spec fn is_connected_to(
    edges: Seq<HalfEdge>,
    connections: Seq<Connection>,
    objects: Objects,
) -> bool {
    &&& edges.len() == connections.len()
    &&& forall|i: int|
        0 <= i < edges.len() ==> {
            let n = connections.len() as int;
            let edge = #[trigger] edges[i];
            &&& edge.path == connections[i].path
            &&& edge.boundary == connections[i].boundary
            &&& edge.start_vertex == connections[(i + n - 1) % n].edge.start_vertex
            &&& edge.curve.id() == objects.curves@.len() + i
            &&& edge.global_form.id() == objects.global_edges@.len() + i
        }
}

/// Whether the handles are those of the half-edges that were stored last.
pub open spec fn are_last_stored(handles: Seq<Handle<HalfEdge>>, before: Objects) -> bool {
    forall|i: int|
        0 <= i < handles.len() ==> (#[trigger] handles[i]).id() == before.half_edges@.len() + i
}

/// Builder API for [`Cycle`]
pub trait CycleBuilder: Sized {
    /// Add a new half-edge to the cycle
    ///
    /// The half-edge is stored and added to the end of the cycle.
    fn add_half_edge(self, half_edge: HalfEdge, objects: &mut Objects) -> (Self, Handle<HalfEdge>);

    /// Update cycle as a polygon from the provided points
    fn update_as_polygon_from_points(self, points: Vec<Point2>, objects: &mut Objects) -> Option<
        Self,
    >;

    /// Connect the cycles to the provided half-edges
    ///
    /// Assumes that the provided half-edges, once made into local
    /// equivalents of this cycle, form a cycle themselves.
    ///
    /// Returns the local equivalents of the provided half-edges.
    fn connect_to_edges(self, edges: Vec<Connection>, objects: &mut Objects) -> (Self, Vec<
        Handle<HalfEdge>,
    >);
}

impl CycleBuilder for Cycle {
    fn add_half_edge(self, half_edge: HalfEdge, objects: &mut Objects) -> (r: (
        Cycle,
        Handle<HalfEdge>,
    ))
        ensures
            r.0@ == self@.push(half_edge),
            r.1.id() == old(objects).half_edges@.len(),
            final(objects).half_edges@ == old(objects).half_edges@.push(half_edge),
            final(objects).curves@ == old(objects).curves@,
            final(objects).vertices@ == old(objects).vertices@,
            final(objects).global_edges@ == old(objects).global_edges@,
            final(objects).surfaces@ == old(objects).surfaces@,
    {
        let handle = objects.half_edges.insert(half_edge.clone());
        let mut edges = self.into_half_edges();
        edges.push(half_edge);
        (Cycle::new(edges), handle)
    }

    /// The cycle with the sides of a polygon added to its end, each of them
    /// stored as a half-edge too.
    ///
    /// There is no such cycle where a side cannot be written; nothing is
    /// stored then.
    fn update_as_polygon_from_points(self, points: Vec<Point2>, objects: &mut Objects) -> (r:
        Option<Cycle>)
        ensures
            r.is_some() <==> all_segments(points@),
            r.is_some() ==> {
                let edges = r.unwrap()@;
                let sides = edges.subrange(self@.len() as int, edges.len() as int);
                &&& edges.len() == self@.len() + points@.len()
                &&& edges.subrange(0, self@.len() as int) == self@
                &&& is_polygon(sides, points@, *old(objects))
                &&& grew_by(*old(objects), *final(objects), points@.len())
                &&& final(objects).half_edges@ == old(objects).half_edges@ + sides
            },
            r.is_none() ==> grew_by(*old(objects), *final(objects), 0),
            r.is_none() ==> final(objects).half_edges@ == old(objects).half_edges@,
    {
        let first: usize = self.len();
        match extend_by_polygon(self, &points, objects) {
            None => None,
            Some(cycle) => {
                let edges = cycle.half_edges();
                let ghost sides = edges@.subrange(first as int, edges@.len() as int);
                let ghost stored = objects.half_edges@;
                let mut i: usize = first;
                proof {
                    assert(stored + edges@.subrange(first as int, first as int) =~= stored);
                }
                while i < edges.len()
                    invariant
                        first <= i <= edges.len(),
                        edges@ == cycle@,
                        objects.half_edges@ == stored + edges@.subrange(first as int, i as int),
                        grew_by(*old(objects), *objects, points@.len()),
                    decreases edges.len() - i,
                {
                    let ghost mid = *objects;
                    objects.half_edges.insert(edges[i].clone());
                    proof {
                        assert(stored + edges@.subrange(first as int, i + 1) =~= (stored
                            + edges@.subrange(first as int, i as int)).push(edges@[i as int]));
                        assert(objects.curves == mid.curves);
                        assert(objects.vertices == mid.vertices);
                        assert(objects.global_edges == mid.global_edges);
                        assert(objects.surfaces == mid.surfaces);
                    }
                    i += 1;
                }
                Some(cycle)
            },
        }
    }

    fn connect_to_edges(self, edges: Vec<Connection>, objects: &mut Objects) -> (r: (
        Cycle,
        Vec<Handle<HalfEdge>>,
    ))
        ensures
            r.0@.len() == self@.len() + edges@.len(),
            r.0@.subrange(0, self@.len() as int) == self@,
            is_connected_to(
                r.0@.subrange(self@.len() as int, r.0@.len() as int),
                edges@,
                *old(objects),
            ),
            r.1@.len() == edges@.len(),
            are_last_stored(r.1@, *old(objects)),
            final(objects).half_edges@ == old(objects).half_edges@ + r.0@.subrange(
                self@.len() as int,
                r.0@.len() as int,
            ),
            final(objects).curves@.len() == old(objects).curves@.len() + edges@.len(),
            final(objects).global_edges@.len() == old(objects).global_edges@.len() + edges@.len(),
            final(objects).vertices@ == old(objects).vertices@,
            final(objects).surfaces@ == old(objects).surfaces@,
    {
        let n = edges.len();
        let ghost before = self@;
        let mut cycle = self;
        let mut handles: Vec<Handle<HalfEdge>> = Vec::new();
        let mut i: usize = 0;
        proof {
            assert(cycle@.subrange(0, before.len() as int) =~= before);
            assert(objects.half_edges@ + cycle@.subrange(before.len() as int, cycle@.len() as int)
                =~= objects.half_edges@);
        }
        while i < n
            invariant
                n == edges@.len(),
                i <= n,
                cycle@.len() == before.len() + i,
                cycle@.subrange(0, before.len() as int) == before,
                handles@.len() == i,
                are_last_stored(handles@, *old(objects)),
                forall|j: int|
                    0 <= j < i ==> {
                        let edge = #[trigger] cycle@[before.len() + j];
                        &&& edge.path == edges@[j].path
                        &&& edge.boundary == edges@[j].boundary
                        &&& edge.start_vertex == edges@[(j + n - 1) % (n as int)].edge.start_vertex
                        &&& edge.curve.id() == old(objects).curves@.len() + j
                        &&& edge.global_form.id() == old(objects).global_edges@.len() + j
                    },
                objects.half_edges@ == old(objects).half_edges@ + cycle@.subrange(
                    before.len() as int,
                    cycle@.len() as int,
                ),
                objects.curves@.len() == old(objects).curves@.len() + i,
                objects.global_edges@.len() == old(objects).global_edges@.len() + i,
                objects.vertices@ == old(objects).vertices@,
                objects.surfaces@ == old(objects).surfaces@,
            decreases n - i,
        {
            let previous: usize = if i == 0 {
                n - 1
            } else {
                i - 1
            };
            proof {
                assert((i + n - 1) % (n as int) == previous) by {
                    if i == 0 {
                        vstd::arithmetic::div_mod::lemma_small_mod((n - 1) as nat, n as nat);
                    } else {
                        vstd::arithmetic::div_mod::lemma_mod_add_multiples_vanish(
                            i - 1,
                            n as int,
                        );
                        vstd::arithmetic::div_mod::lemma_small_mod((i - 1) as nat, n as nat);
                    }
                }
            }
            let ghost so_far = cycle@;
            let ghost given = handles@;
            let curve = objects.curves.insert(crate::topology::edge::Curve {  });
            let global_form = objects.global_edges.insert(crate::topology::edge::GlobalEdge {  });
            let half_edge = HalfEdge::new(
                edges[i].path,
                edges[i].boundary,
                curve,
                edges[previous].edge.start_vertex.clone(),
                global_form,
            );
            let (next, handle) = cycle.add_half_edge(half_edge, objects);
            cycle = next;
            handles.push(handle);
            proof {
                assert(cycle@.subrange(0, before.len() as int) =~= so_far.subrange(
                    0,
                    before.len() as int,
                ));
                assert(cycle@.subrange(before.len() as int, cycle@.len() as int)
                    =~= so_far.subrange(before.len() as int, so_far.len() as int).push(
                    cycle@[cycle@.len() - 1],
                ));
                assert forall|j: int| 0 <= j < handles@.len() implies (#[trigger] handles@[j]).id()
                    == old(objects).half_edges@.len() + j by {
                    if j < i {
                        assert(handles@[j] == given[j]);
                    }
                }
                assert forall|j: int| 0 <= j < i + 1 implies {
                    let edge = #[trigger] cycle@[before.len() + j];
                    &&& edge.path == edges@[j].path
                    &&& edge.boundary == edges@[j].boundary
                    &&& edge.start_vertex == edges@[(j + n - 1) % (n as int)].edge.start_vertex
                    &&& edge.curve.id() == old(objects).curves@.len() + j
                    &&& edge.global_form.id() == old(objects).global_edges@.len() + j
                } by {
                    if j < i {
                        assert(cycle@[before.len() + j] == so_far[before.len() + j]);
                    }
                }
            }
            i += 1;
        }
        proof {
            let tail = cycle@.subrange(before.len() as int, cycle@.len() as int);
            assert forall|j: int| 0 <= j < tail.len() implies {
                let m = edges@.len() as int;
                let edge = #[trigger] tail[j];
                &&& edge.path == edges@[j].path
                &&& edge.boundary == edges@[j].boundary
                &&& edge.start_vertex == edges@[(j + m - 1) % m].edge.start_vertex
                &&& edge.curve.id() == old(objects).curves@.len() + j
                &&& edge.global_form.id() == old(objects).global_edges@.len() + j
            } by {
                assert(tail[j] == cycle@[before.len() + j]);
            }
        }
        (cycle, handles)
    }
}

} // verus!
