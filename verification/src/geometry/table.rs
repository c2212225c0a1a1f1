//! The geometry of objects, kept in a table beside the objects.
//!
//! The objects say how a shape is connected; the table says where its
//! curves, half-edges and surfaces are. Geometry is registered once for a
//! handle and does not change afterwards.

use vstd::prelude::*;
use core::marker::PhantomData;
use crate::geometry::boundary::CurveBoundary;
use crate::geometry::path::SurfacePath;
use crate::geometry::surfaces::{Surface, SurfaceGeom};
use crate::storage::Handle;
use crate::topology::edge::{Curve, HalfEdge};

verus! {

/// The geometry of a half-edge: the path that it follows on its surface and
/// the boundary on that path.
#[derive(Clone, Copy, Debug, PartialEq, Eq, Structural, Hash)]
pub struct HalfEdgeGeom {
    pub path: SurfacePath,
    pub boundary: CurveBoundary,
}

/// The geometry of a curve: the path that it follows on a surface.
#[derive(Debug, PartialEq, Eq, Hash)]
pub struct CurveGeom {
    pub path: SurfacePath,
    pub surface: Handle<Surface>,
}

/// A table from the handles of one kind of object to their geometry.
pub struct Table<T, G> {
    entries: Vec<Option<G>>,
    marker: PhantomData<T>,
}

impl<T, G> View for Table<T, G> {
    type V = Map<nat, G>;

    closed spec fn view(&self) -> Map<nat, G> {
        Map::new(
            |id: nat| id < self.entries@.len() && self.entries@[id as int].is_some(),
            |id: nat| self.entries@[id as int].unwrap(),
        )
    }
}

impl<T, G> Table<T, G> {
    /// Whether geometry is registered for the handle.
    pub open spec fn has(&self, handle: Handle<T>) -> bool {
        self@.contains_key(handle.id())
    }

    /// The geometry that is registered for the handle.
    pub open spec fn of(&self, handle: Handle<T>) -> G
        recommends
            self.has(handle),
    {
        self@[handle.id()]
    }

    /// A table without entries.
    pub fn new() -> (t: Table<T, G>)
        ensures
            t@ == Map::<nat, G>::empty(),
    {
        let t = Table { entries: Vec::new(), marker: PhantomData };
        proof {
            assert(t@ =~= Map::<nat, G>::empty());
        }
        t
    }

    /// Whether geometry is registered for the handle.
    pub fn contains(&self, handle: &Handle<T>) -> (b: bool)
        ensures
            b == self.has(*handle),
    {
        let index = handle.index();
        index < self.entries.len() && self.entries[index].is_some()
    }

    /// Register the geometry of an object.
    ///
    /// Geometry is registered once: where the handle has geometry already,
    /// the table stays as it is and the answer is `false`.
    pub fn define(&mut self, handle: &Handle<T>, geometry: G) -> (defined: bool)
        ensures
            defined == !old(self).has(*handle),
            defined ==> final(self)@ == old(self)@.insert(handle.id(), geometry),
            !defined ==> final(self)@ == old(self)@,
    {
        if self.contains(handle) {
            return false;
        }
        let index = handle.index();
        let ghost before = self@;
        while self.entries.len() <= index
            invariant
                self@ == before,
                index == handle.id(),
            decreases index + 1 - self.entries.len(),
        {
            let ghost entries = self.entries@;
            self.entries.push(None);
            proof {
                assert(self.entries@ == entries.push(None));
                assert(self@ =~= before);
            }
        }
        self.entries.set(index, Some(geometry));
        proof {
            assert(self@ =~= before.insert(handle.id(), geometry));
        }
        true
    }

    /// Read the geometry of an object.
    pub fn get(&self, handle: &Handle<T>) -> (geometry: &G)
        requires
            self.has(*handle),
        ensures
            *geometry == self.of(*handle),
    {
        self.entries[handle.index()].as_ref().unwrap()
    }
}

/// The geometry of the objects of a shape.
pub struct Geometry {
    pub curves: Table<Curve, CurveGeom>,
    pub half_edges: Table<HalfEdge, HalfEdgeGeom>,
    pub surfaces: Table<Surface, SurfaceGeom>,
}

impl Geometry {
    /// Geometry for no object at all.
    pub fn new() -> (g: Geometry)
        ensures
            g.curves@ == Map::<nat, CurveGeom>::empty(),
            g.half_edges@ == Map::<nat, HalfEdgeGeom>::empty(),
            g.surfaces@ == Map::<nat, SurfaceGeom>::empty(),
    {
        Geometry { curves: Table::new(), half_edges: Table::new(), surfaces: Table::new() }
    }

    /// Register the geometry of a curve, unless it has some already.
    pub fn define_curve(&mut self, curve: &Handle<Curve>, geometry: CurveGeom) -> (defined: bool)
        ensures
            defined == !old(self).curves.has(*curve),
            defined ==> final(self).curves@ == old(self).curves@.insert(curve.id(), geometry),
            !defined ==> final(self).curves@ == old(self).curves@,
            final(self).half_edges@ == old(self).half_edges@,
            final(self).surfaces@ == old(self).surfaces@,
    {
        self.curves.define(curve, geometry)
    }

    /// Register the geometry of a half-edge, unless it has some already.
    pub fn define_half_edge(&mut self, half_edge: &Handle<HalfEdge>, geometry: HalfEdgeGeom) -> (defined:
        bool)
        ensures
            defined == !old(self).half_edges.has(*half_edge),
            defined ==> final(self).half_edges@ == old(self).half_edges@.insert(
                half_edge.id(),
                geometry,
            ),
            !defined ==> final(self).half_edges@ == old(self).half_edges@,
            final(self).curves@ == old(self).curves@,
            final(self).surfaces@ == old(self).surfaces@,
    {
        self.half_edges.define(half_edge, geometry)
    }

    /// Register the geometry of a surface, unless it has some already.
    pub fn define_surface(&mut self, surface: &Handle<Surface>, geometry: SurfaceGeom) -> (defined:
        bool)
        ensures
            defined == !old(self).surfaces.has(*surface),
            defined ==> final(self).surfaces@ == old(self).surfaces@.insert(surface.id(), geometry),
            !defined ==> final(self).surfaces@ == old(self).surfaces@,
            final(self).curves@ == old(self).curves@,
            final(self).half_edges@ == old(self).half_edges@,
    {
        self.surfaces.define(surface, geometry)
    }

    /// Access the geometry of the provided curve
    pub fn of_curve(&self, curve: &Handle<Curve>) -> (geometry: &CurveGeom)
        requires
            self.curves.has(*curve),
        ensures
            *geometry == self.curves.of(*curve),
    {
        self.curves.get(curve)
    }

    /// Access the geometry of the provided half-edge
    pub fn of_half_edge(&self, half_edge: &Handle<HalfEdge>) -> (geometry: &HalfEdgeGeom)
        requires
            self.half_edges.has(*half_edge),
        ensures
            *geometry == self.half_edges.of(*half_edge),
    {
        self.half_edges.get(half_edge)
    }

    /// Access the geometry of the provided surface
    pub fn of_surface(&self, surface: &Handle<Surface>) -> (geometry: &SurfaceGeom)
        requires
            self.surfaces.has(*surface),
        ensures
            *geometry == self.surfaces.of(*surface),
    {
        self.surfaces.get(surface)
    }
}

} // verus!
