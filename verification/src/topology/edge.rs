//! Curves, vertices and the half-edges between them.

use vstd::prelude::*;
use crate::geometry::boundary::CurveBoundary;
use crate::geometry::path::SurfacePath;
use crate::math::Point2;
use crate::storage::Handle;

verus! {

/// A curve. It has an identity and nothing else: where it runs is geometry.
#[derive(Clone, Copy, Debug, PartialEq, Eq, Structural, Hash, PartialOrd, Ord)]
pub struct Curve {}

/// A vertex. It has an identity and nothing else.
#[derive(Clone, Copy, Debug, PartialEq, Eq, Structural, Hash, PartialOrd, Ord)]
pub struct Vertex {}

/// The edge that the half-edges on both of its sides share.
#[derive(Clone, Copy, Debug, PartialEq, Eq, Structural, Hash, PartialOrd, Ord)]
pub struct GlobalEdge {}

/// A directed use of a curve: it follows a path on a surface within a
/// boundary and starts at a vertex.
#[derive(Debug, PartialEq, Eq, Hash, PartialOrd, Ord)]
pub struct HalfEdge {
    pub path: SurfacePath,
    pub boundary: CurveBoundary,
    pub curve: Handle<Curve>,
    pub start_vertex: Handle<Vertex>,
    pub global_form: Handle<GlobalEdge>,
}

impl Clone for HalfEdge {
    fn clone(&self) -> (r: HalfEdge)
        ensures
            r == *self,
    {
        HalfEdge {
            path: self.path,
            boundary: self.boundary,
            curve: self.curve.clone(),
            start_vertex: self.start_vertex.clone(),
            global_form: self.global_form.clone(),
        }
    }
}

impl HalfEdge {
    /// Where the path is at a parameter, for the paths whose points can be
    /// written exactly: the points of a line.
    pub open spec fn spec_position(self, t: int) -> Option<Point2> {
        match self.path {
            SurfacePath::Circle(_) => None,
            SurfacePath::Line(line) => {
                let p = line.spec_point(t);
                if crate::math::fits(p.0) && crate::math::fits(p.1) {
                    Some(Point2 { u: p.0 as i64, v: p.1 as i64 })
                } else {
                    None
                }
            },
        }
    }

    /// Where the half-edge starts on its surface.
    pub open spec fn spec_start_position(self) -> Option<Point2> {
        self.spec_position(self.boundary.start.t as int)
    }

    /// Where the half-edge ends on its surface.
    pub open spec fn spec_end_position(self) -> Option<Point2> {
        self.spec_position(self.boundary.end.t as int)
    }

    pub fn new(
        path: SurfacePath,
        boundary: CurveBoundary,
        curve: Handle<Curve>,
        start_vertex: Handle<Vertex>,
        global_form: Handle<GlobalEdge>,
    ) -> (r: HalfEdge)
        ensures
            r == (HalfEdge { path, boundary, curve, start_vertex, global_form }),
    {
        HalfEdge { path, boundary, curve, start_vertex, global_form }
    }

    /// Whether both are the same half-edge: the same path and boundary, on
    /// the same curve, from the same vertex, of the same edge.
    pub fn same_as(&self, other: &HalfEdge) -> (b: bool)
        ensures
            b == (*self == *other),
    {
        self.path == other.path && self.boundary == other.boundary && self.curve.same_as(
            &other.curve,
        ) && self.start_vertex.same_as(&other.start_vertex) && self.global_form.same_as(
            &other.global_form,
        )
    }

    /// Access the path that the half-edge follows on its surface
    pub fn path(&self) -> (r: SurfacePath)
        ensures
            r == self.path,
    {
        self.path
    }

    /// Access the boundary of the half-edge on its curve
    pub fn boundary(&self) -> (r: CurveBoundary)
        ensures
            r == self.boundary,
    {
        self.boundary
    }

    /// Access the curve of the half-edge
    pub fn curve(&self) -> (r: &Handle<Curve>)
        ensures
            *r == self.curve,
    {
        &self.curve
    }

    /// Access the vertex from which the half-edge starts
    pub fn start_vertex(&self) -> (r: &Handle<Vertex>)
        ensures
            *r == self.start_vertex,
    {
        &self.start_vertex
    }

    /// Access the edge that this is one side of
    pub fn global_form(&self) -> (r: &Handle<GlobalEdge>)
        ensures
            *r == self.global_form,
    {
        &self.global_form
    }

    /// Where the half-edge starts on its surface, if that can be written
    /// exactly.
    pub fn start_position(&self) -> (r: Option<Point2>)
        ensures
            r == self.spec_start_position(),
    {
        match self.path {
            SurfacePath::Circle(_) => None,
            SurfacePath::Line(line) => line.point_from_line_coords(self.boundary.start),
        }
    }

    /// Where the half-edge ends on its surface, if that can be written
    /// exactly.
    pub fn end_position(&self) -> (r: Option<Point2>)
        ensures
            r == self.spec_end_position(),
    {
        match self.path {
            SurfacePath::Circle(_) => None,
            SurfacePath::Line(line) => line.point_from_line_coords(self.boundary.end),
        }
    }
}

} // verus!
