//! Surfaces: how two surface coordinates map into model space.

use vstd::prelude::*;
use crate::geometry::path::{GlobalPath, Line3};
use crate::math::{affine, checked_affine, fits, Point2, Point3, Vector2, Vector3};

verus! {

/// A surface that a path makes when it is swept along a vector: the first
/// surface coordinate runs along the path `u`, the second along `v`.
#[derive(Clone, Copy, Debug, PartialEq, Eq, Structural, Hash, PartialOrd, Ord)]
pub struct SurfaceGeom {
    pub u: GlobalPath,
    pub v: Vector3,
}

/// A two-dimensional shape.
#[derive(Clone, Copy, Debug, PartialEq, Eq, Structural, Hash, PartialOrd, Ord)]
pub enum Surface {
    /// A swept curve
    SweptCurve(SurfaceGeom),
}

impl SurfaceGeom {
    /// A surface is flat where the path that is swept is a line.
    pub open spec fn spec_is_flat(self) -> bool {
        self.u is Line
    }

    /// The line that a flat surface sweeps.
    pub open spec fn line(self) -> Line3
        recommends
            self.spec_is_flat(),
    {
        self.u->Line_0
    }

    /// Where a point of a flat surface lies in model space, as numbers.
    pub open spec fn spec_point(self, point: Point2) -> (int, int, int)
        recommends
            self.spec_is_flat(),
    {
        let l = self.line();
        (
            affine(l.origin.x as int, l.direction.x as int, point.u as int, self.v.x as int, point.v as int),
            affine(l.origin.y as int, l.direction.y as int, point.u as int, self.v.y as int, point.v as int),
            affine(l.origin.z as int, l.direction.z as int, point.u as int, self.v.z as int, point.v as int),
        )
    }

    /// Where a vector of a flat surface points in model space, as numbers.
    pub open spec fn spec_vector(self, vector: Vector2) -> (int, int, int)
        recommends
            self.spec_is_flat(),
    {
        let l = self.line();
        (
            affine(0, l.direction.x as int, vector.u as int, self.v.x as int, vector.v as int),
            affine(0, l.direction.y as int, vector.u as int, self.v.y as int, vector.v as int),
            affine(0, l.direction.z as int, vector.u as int, self.v.z as int, vector.v as int),
        )
    }

    /// Whether all three numbers can be written as coordinates.
    pub open spec fn all_fit(p: (int, int, int)) -> bool {
        fits(p.0) && fits(p.1) && fits(p.2)
    }

    pub fn is_flat(&self) -> (b: bool)
        ensures
            b == self.spec_is_flat(),
    {
        match self.u {
            GlobalPath::Line(_) => true,
            GlobalPath::Circle(_) => false,
        }
    }

    /// Convert a point in surface coordinates to model coordinates.
    ///
    /// There is a result where the surface is flat and the point can be
    /// written in model coordinates.
    pub fn point_from_surface_coords(&self, point: Point2) -> (r: Option<Point3>)
        ensures
            r.is_some() <==> self.spec_is_flat() && Self::all_fit(self.spec_point(point)),
            r.is_some() ==> (r.unwrap().x as int, r.unwrap().y as int, r.unwrap().z as int)
                == self.spec_point(point),
    {
        match self.u {
            GlobalPath::Circle(_) => None,
            GlobalPath::Line(l) => {
                let x = checked_affine(l.origin.x, l.direction.x, point.u, self.v.x, point.v);
                let y = checked_affine(l.origin.y, l.direction.y, point.u, self.v.y, point.v);
                let z = checked_affine(l.origin.z, l.direction.z, point.u, self.v.z, point.v);
                match (x, y, z) {
                    (Some(x), Some(y), Some(z)) => Some(Point3 { x, y, z }),
                    _ => None,
                }
            },
        }
    }

    /// Convert a vector in surface coordinates to model coordinates.
    ///
    /// There is a result where the surface is flat and the vector can be
    /// written in model coordinates.
    pub fn vector_from_surface_coords(&self, vector: Vector2) -> (r: Option<Vector3>)
        ensures
            r.is_some() <==> self.spec_is_flat() && Self::all_fit(self.spec_vector(vector)),
            r.is_some() ==> (r.unwrap().x as int, r.unwrap().y as int, r.unwrap().z as int)
                == self.spec_vector(vector),
    {
        match self.u {
            GlobalPath::Circle(_) => None,
            GlobalPath::Line(l) => {
                let x = checked_affine(0, l.direction.x, vector.u, self.v.x, vector.v);
                let y = checked_affine(0, l.direction.y, vector.u, self.v.y, vector.v);
                let z = checked_affine(0, l.direction.z, vector.u, self.v.z, vector.v);
                match (x, y, z) {
                    (Some(x), Some(y), Some(z)) => Some(Vector3 { x, y, z }),
                    _ => None,
                }
            },
        }
    }

    pub open spec fn can_reverse(self) -> bool {
        self.u.can_reverse()
    }

    pub open spec fn spec_reverse(self) -> SurfaceGeom {
        SurfaceGeom { u: self.u.spec_reverse(), v: self.v }
    }

    /// The surface with its first coordinate running the other way.
    pub fn reverse(self) -> (r: SurfaceGeom)
        requires
            self.can_reverse(),
        ensures
            r == self.spec_reverse(),
    {
        SurfaceGeom { u: self.u.reverse(), v: self.v }
    }
}

impl Surface {
    /// The swept curve that the surface is.
    pub open spec fn geom(self) -> SurfaceGeom {
        match self {
            Surface::SweptCurve(surface) => surface,
        }
    }

    /// Construct a `Surface` that represents the xy-plane
    pub fn xy_plane() -> (s: Surface)
        ensures
            s.geom().u == GlobalPath::Line(
                Line3 {
                    origin: Point3 { x: 0, y: 0, z: 0 },
                    direction: Vector3 { x: 1, y: 0, z: 0 },
                },
            ),
            s.geom().v == (Vector3 { x: 0, y: 1, z: 0 }),
    {
        Surface::SweptCurve(SurfaceGeom { u: GlobalPath::x_axis(), v: Vector3 { x: 0, y: 1, z: 0 } })
    }

    /// Construct a `Surface` that represents the xz-plane
    pub fn xz_plane() -> (s: Surface)
        ensures
            s.geom().u == GlobalPath::Line(
                Line3 {
                    origin: Point3 { x: 0, y: 0, z: 0 },
                    direction: Vector3 { x: 1, y: 0, z: 0 },
                },
            ),
            s.geom().v == (Vector3 { x: 0, y: 0, z: 1 }),
    {
        Surface::SweptCurve(SurfaceGeom { u: GlobalPath::x_axis(), v: Vector3 { x: 0, y: 0, z: 1 } })
    }

    /// Construct a `Surface` that represents the yz-plane
    pub fn yz_plane() -> (s: Surface)
        ensures
            s.geom().u == GlobalPath::Line(
                Line3 {
                    origin: Point3 { x: 0, y: 0, z: 0 },
                    direction: Vector3 { x: 0, y: 1, z: 0 },
                },
            ),
            s.geom().v == (Vector3 { x: 0, y: 0, z: 1 }),
    {
        Surface::SweptCurve(SurfaceGeom { u: GlobalPath::y_axis(), v: Vector3 { x: 0, y: 0, z: 1 } })
    }

    /// The swept curve that the surface is.
    pub fn geometry(&self) -> (g: SurfaceGeom)
        ensures
            g == self.geom(),
    {
        match self {
            Surface::SweptCurve(surface) => *surface,
        }
    }

    /// Create a new instance that is reversed
    #[must_use]
    pub fn reverse(self) -> (r: Surface)
        requires
            self.geom().can_reverse(),
        ensures
            r.geom() == self.geom().spec_reverse(),
    {
        match self {
            Surface::SweptCurve(surface) => Surface::SweptCurve(surface.reverse()),
        }
    }

    /// Convert a point in surface coordinates to model coordinates
    pub fn convert_point_from_surface_coords(&self, point: Point2) -> (r: Option<Point3>)
        ensures
            r.is_some() <==> self.geom().spec_is_flat() && SurfaceGeom::all_fit(
                self.geom().spec_point(point),
            ),
            r.is_some() ==> (r.unwrap().x as int, r.unwrap().y as int, r.unwrap().z as int)
                == self.geom().spec_point(point),
    {
        match self {
            Surface::SweptCurve(surface) => surface.point_from_surface_coords(point),
        }
    }

    /// Convert a vector in surface coordinates to model coordinates
    pub fn convert_vector_from_surface_coords(&self, vector: Vector2) -> (r: Option<Vector3>)
        ensures
            r.is_some() <==> self.geom().spec_is_flat() && SurfaceGeom::all_fit(
                self.geom().spec_vector(vector),
            ),
            r.is_some() ==> (r.unwrap().x as int, r.unwrap().y as int, r.unwrap().z as int)
                == self.geom().spec_vector(vector),
    {
        match self {
            Surface::SweptCurve(surface) => surface.vector_from_surface_coords(vector),
        }
    }
}

} // verus!
