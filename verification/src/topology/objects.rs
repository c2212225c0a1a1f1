//! The stores of a shape's objects.

use vstd::prelude::*;
use crate::geometry::surfaces::Surface;
use crate::storage::Store;
use crate::topology::edge::{Curve, GlobalEdge, HalfEdge, Vertex};

verus! {

/// The stores that hand out the identities of curves, vertices, edges,
/// half-edges and surfaces.
pub struct Objects {
    pub curves: Store<Curve>,
    pub vertices: Store<Vertex>,
    pub global_edges: Store<GlobalEdge>,
    pub half_edges: Store<HalfEdge>,
    pub surfaces: Store<Surface>,
}

impl Objects {
    /// Stores that hold nothing yet.
    pub fn new() -> (o: Objects)
        ensures
            o.curves@.len() == 0,
            o.vertices@.len() == 0,
            o.global_edges@.len() == 0,
            o.half_edges@.len() == 0,
            o.surfaces@.len() == 0,
    {
        Objects {
            curves: Store::new(),
            vertices: Store::new(),
            global_edges: Store::new(),
            half_edges: Store::new(),
            surfaces: Store::new(),
        }
    }
}

} // verus!
