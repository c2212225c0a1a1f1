//! Updates of half-edges.

use vstd::prelude::*;
use crate::geometry::boundary::CurveBoundary;
use crate::geometry::path::SurfacePath;
use crate::storage::Handle;
use crate::topology::edge::{Curve, HalfEdge, Vertex};

verus! {

/// Update a [`HalfEdge`]
pub trait UpdateHalfEdge: Sized {
    /// Replace the path of the half-edge
    #[must_use]
    fn replace_path(&self, path: SurfacePath) -> Self;

    /// Replace the boundary of the half-edge
    #[must_use]
    fn replace_boundary(&self, boundary: CurveBoundary) -> Self;

    /// Replace the curve of the half-edge
    #[must_use]
    fn replace_curve(&self, curve: Handle<Curve>) -> Self;

    /// Replace the start vertex of the half-edge
    #[must_use]
    fn replace_start_vertex(&self, start_vertex: Handle<Vertex>) -> Self;
}

impl UpdateHalfEdge for HalfEdge {
    fn replace_path(&self, path: SurfacePath) -> (r: HalfEdge)
        ensures
            r == (HalfEdge { path, ..*self }),
    {
        HalfEdge::new(
            path,
            self.boundary(),
            self.curve().clone(),
            self.start_vertex().clone(),
            self.global_form().clone(),
        )
    }

    fn replace_boundary(&self, boundary: CurveBoundary) -> (r: HalfEdge)
        ensures
            r == (HalfEdge { boundary, ..*self }),
    {
        HalfEdge::new(
            self.path(),
            boundary,
            self.curve().clone(),
            self.start_vertex().clone(),
            self.global_form().clone(),
        )
    }

    fn replace_curve(&self, curve: Handle<Curve>) -> (r: HalfEdge)
        ensures
            r == (HalfEdge { curve, ..*self }),
    {
        HalfEdge::new(
            self.path(),
            self.boundary(),
            curve,
            self.start_vertex().clone(),
            self.global_form().clone(),
        )
    }

    fn replace_start_vertex(&self, start_vertex: Handle<Vertex>) -> (r: HalfEdge)
        ensures
            r == (HalfEdge { start_vertex, ..*self }),
    {
        HalfEdge::new(
            self.path(),
            self.boundary(),
            self.curve().clone(),
            start_vertex,
            self.global_form().clone(),
        )
    }
}

} // verus!
