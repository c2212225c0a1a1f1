//! Lines and circles, the two kinds of path that a curve can follow.

use vstd::prelude::*;
use crate::geometry::boundary::CurveBoundary;
use crate::math::{affine, checked_affine, fits, product, Point1, Point2, Point3, Vector2, Vector3};

verus! {

/// A line on a surface: the point at parameter `t` is `origin + direction * t`.
#[derive(Clone, Copy, Debug, PartialEq, Eq, Structural, Hash, PartialOrd, Ord)]
pub struct Line2 {
    pub origin: Point2,
    pub direction: Vector2,
}

/// A circle on a surface: the point at angle `t` is
/// `center + a * cos(t) + b * sin(t)`.
#[derive(Clone, Copy, Debug, PartialEq, Eq, Structural, Hash, PartialOrd, Ord)]
pub struct Circle2 {
    pub center: Point2,
    pub a: Vector2,
    pub b: Vector2,
}

/// A line in model space.
#[derive(Clone, Copy, Debug, PartialEq, Eq, Structural, Hash, PartialOrd, Ord)]
pub struct Line3 {
    pub origin: Point3,
    pub direction: Vector3,
}

/// A circle in model space.
#[derive(Clone, Copy, Debug, PartialEq, Eq, Structural, Hash, PartialOrd, Ord)]
pub struct Circle3 {
    pub center: Point3,
    pub a: Vector3,
    pub b: Vector3,
}

/// The path of a curve on a surface.
#[derive(Clone, Copy, Debug, PartialEq, Eq, Structural, Hash, PartialOrd, Ord)]
pub enum SurfacePath {
    Circle(Circle2),
    Line(Line2),
}

/// The path of a curve in model space.
#[derive(Clone, Copy, Debug, PartialEq, Eq, Structural, Hash, PartialOrd, Ord)]
pub enum GlobalPath {
    Circle(Circle3),
    Line(Line3),
}

/// The angle of a full turn. Angles on a circle are counted in parts of a
/// turn, of which this many make the whole.
pub const FULL_TURN: i64 = 0x1_0000_0000;

/// Whether a coordinate has a negative that can be written too.
pub open spec fn has_negative(x: i64) -> bool {
    x != i64::MIN
}

impl Vector2 {
    pub open spec fn can_reverse(self) -> bool {
        has_negative(self.u) && has_negative(self.v)
    }

    pub open spec fn spec_reverse(self) -> Vector2 {
        Vector2 { u: (-self.u) as i64, v: (-self.v) as i64 }
    }

    /// The vector that points the other way.
    pub fn reverse(self) -> (r: Vector2)
        requires
            self.can_reverse(),
        ensures
            r == self.spec_reverse(),
            r.u == -self.u,
            r.v == -self.v,
    {
        Vector2 { u: -self.u, v: -self.v }
    }
}

impl Vector3 {
    pub open spec fn can_reverse(self) -> bool {
        has_negative(self.x) && has_negative(self.y) && has_negative(self.z)
    }

    pub open spec fn spec_reverse(self) -> Vector3 {
        Vector3 { x: (-self.x) as i64, y: (-self.y) as i64, z: (-self.z) as i64 }
    }

    /// The vector that points the other way.
    pub fn reverse(self) -> (r: Vector3)
        requires
            self.can_reverse(),
        ensures
            r == self.spec_reverse(),
            r.x == -self.x,
            r.y == -self.y,
            r.z == -self.z,
    {
        Vector3 { x: -self.x, y: -self.y, z: -self.z }
    }
}

impl Line2 {
    /// The coordinates of the point at a parameter, as numbers.
    pub open spec fn spec_point(self, t: int) -> (int, int) {
        (
            affine(self.origin.u as int, self.direction.u as int, t, 0, 0),
            affine(self.origin.v as int, self.direction.v as int, t, 0, 0),
        )
    }

    /// The line through two points, and the boundary on it that runs from
    /// the first point at parameter 0 to the second at parameter 1.
    ///
    /// There is no such line where the difference of the two points cannot
    /// be written as a vector.
    pub fn from_points(a: Point2, b: Point2) -> (r: Option<(Line2, CurveBoundary)>)
        ensures
            r.is_some() <==> fits(b.u - a.u) && fits(b.v - a.v),
            r.is_some() ==> {
                let (line, boundary) = r.unwrap();
                &&& line.origin == a
                &&& line.direction.u == b.u - a.u
                &&& line.direction.v == b.v - a.v
                &&& boundary.start.t == 0
                &&& boundary.end.t == 1
                &&& line.spec_point(0) == (a.u as int, a.v as int)
                &&& line.spec_point(1) == (b.u as int, b.v as int)
            },
    {
        let du = checked_affine(b.u, -1, a.u, 0, 0);
        let dv = checked_affine(b.v, -1, a.v, 0, 0);
        match (du, dv) {
            (Some(u), Some(v)) => {
                let line = Line2 { origin: a, direction: Vector2 { u, v } };
                let boundary = CurveBoundary { start: Point1 { t: 0 }, end: Point1 { t: 1 } };
                Some((line, boundary))
            },
            _ => None,
        }
    }

    /// The point at a parameter, if it can be written.
    pub fn point_from_line_coords(&self, point: Point1) -> (r: Option<Point2>)
        ensures
            r.is_some() <==> fits(self.spec_point(point.t as int).0) && fits(
                self.spec_point(point.t as int).1,
            ),
            r.is_some() ==> (r.unwrap().u as int, r.unwrap().v as int) == self.spec_point(
                point.t as int,
            ),
    {
        let u = checked_affine(self.origin.u, self.direction.u, point.t, 0, 0);
        let v = checked_affine(self.origin.v, self.direction.v, point.t, 0, 0);
        match (u, v) {
            (Some(u), Some(v)) => Some(Point2 { u, v }),
            _ => None,
        }
    }

    pub open spec fn can_reverse(self) -> bool {
        self.direction.can_reverse()
    }

    pub open spec fn spec_reverse(self) -> Line2 {
        Line2 { origin: self.origin, direction: self.direction.spec_reverse() }
    }

    /// The same line, travelled the other way.
    pub fn reverse(self) -> (r: Line2)
        requires
            self.can_reverse(),
        ensures
            r == self.spec_reverse(),
    {
        Line2 { origin: self.origin, direction: self.direction.reverse() }
    }
}

impl Line3 {
    /// The coordinates of the point at a parameter, as numbers.
    pub open spec fn spec_point(self, t: int) -> (int, int, int) {
        (
            affine(self.origin.x as int, self.direction.x as int, t, 0, 0),
            affine(self.origin.y as int, self.direction.y as int, t, 0, 0),
            affine(self.origin.z as int, self.direction.z as int, t, 0, 0),
        )
    }

    /// The point at a parameter, if it can be written.
    pub fn point_from_line_coords(&self, point: Point1) -> (r: Option<Point3>)
        ensures
            r.is_some() <==> fits(self.spec_point(point.t as int).0) && fits(
                self.spec_point(point.t as int).1,
            ) && fits(self.spec_point(point.t as int).2),
            r.is_some() ==> (r.unwrap().x as int, r.unwrap().y as int, r.unwrap().z as int)
                == self.spec_point(point.t as int),
    {
        let x = checked_affine(self.origin.x, self.direction.x, point.t, 0, 0);
        let y = checked_affine(self.origin.y, self.direction.y, point.t, 0, 0);
        let z = checked_affine(self.origin.z, self.direction.z, point.t, 0, 0);
        match (x, y, z) {
            (Some(x), Some(y), Some(z)) => Some(Point3 { x, y, z }),
            _ => None,
        }
    }

    pub open spec fn can_reverse(self) -> bool {
        self.direction.can_reverse()
    }

    pub open spec fn spec_reverse(self) -> Line3 {
        Line3 { origin: self.origin, direction: self.direction.spec_reverse() }
    }

    /// The same line, travelled the other way.
    pub fn reverse(self) -> (r: Line3)
        requires
            self.can_reverse(),
        ensures
            r == self.spec_reverse(),
    {
        Line3 { origin: self.origin, direction: self.direction.reverse() }
    }
}

impl Circle2 {
    /// The circle around a center with a radius, travelled counter-clockwise
    /// from the point at `center + (radius, 0)`.
    pub fn from_center_and_radius(center: Point2, radius: i64) -> (c: Circle2)
        ensures
            c.center == center,
            c.a == (Vector2 { u: radius, v: 0 }),
            c.b == (Vector2 { u: 0, v: radius }),
    {
        Circle2 { center, a: Vector2 { u: radius, v: 0 }, b: Vector2 { u: 0, v: radius } }
    }

    /// The sign of the cross product of the two axes: positive where
    /// growing angles run counter-clockwise.
    pub open spec fn spec_cross_sign(self) -> int {
        let cross = self.a.u * self.b.v - self.a.v * self.b.u;
        if cross > 0 {
            1
        } else if cross < 0 {
            -1
        } else {
            0
        }
    }

    pub fn cross_sign(&self) -> (s: i8)
        ensures
            s == self.spec_cross_sign(),
    {
        let first: i128 = product(self.a.u, self.b.v);
        let second: i128 = product(self.a.v, self.b.u);
        if first > second {
            1
        } else if first < second {
            -1
        } else {
            0
        }
    }

    pub open spec fn can_reverse(self) -> bool {
        self.b.can_reverse()
    }

    pub open spec fn spec_reverse(self) -> Circle2 {
        Circle2 { center: self.center, a: self.a, b: self.b.spec_reverse() }
    }

    /// The same circle, travelled the other way.
    pub fn reverse(self) -> (r: Circle2)
        requires
            self.can_reverse(),
        ensures
            r == self.spec_reverse(),
    {
        Circle2 { center: self.center, a: self.a, b: self.b.reverse() }
    }
}

impl Circle3 {
    /// The circle around the origin in the xy-plane with a radius.
    pub fn from_radius(radius: i64) -> (c: Circle3)
        ensures
            c.center == (Point3 { x: 0, y: 0, z: 0 }),
            c.a == (Vector3 { x: radius, y: 0, z: 0 }),
            c.b == (Vector3 { x: 0, y: radius, z: 0 }),
    {
        Circle3 {
            center: Point3 { x: 0, y: 0, z: 0 },
            a: Vector3 { x: radius, y: 0, z: 0 },
            b: Vector3 { x: 0, y: radius, z: 0 },
        }
    }

    pub open spec fn can_reverse(self) -> bool {
        self.b.can_reverse()
    }

    pub open spec fn spec_reverse(self) -> Circle3 {
        Circle3 { center: self.center, a: self.a, b: self.b.spec_reverse() }
    }

    /// The same circle, travelled the other way.
    pub fn reverse(self) -> (r: Circle3)
        requires
            self.can_reverse(),
        ensures
            r == self.spec_reverse(),
    {
        Circle3 { center: self.center, a: self.a, b: self.b.reverse() }
    }
}

impl SurfacePath {
    /// The line through two points with the boundary between them.
    pub fn line_from_points(a: Point2, b: Point2) -> (r: Option<(SurfacePath, CurveBoundary)>)
        ensures
            r.is_some() <==> fits(b.u - a.u) && fits(b.v - a.v),
            r.is_some() ==> {
                let (path, boundary) = r.unwrap();
                &&& path == SurfacePath::Line(
                    Line2 {
                        origin: a,
                        direction: Vector2 { u: (b.u - a.u) as i64, v: (b.v - a.v) as i64 },
                    },
                )
                &&& boundary.start.t == 0
                &&& boundary.end.t == 1
            },
    {
        match Line2::from_points(a, b) {
            Some((line, boundary)) => Some((SurfacePath::Line(line), boundary)),
            None => None,
        }
    }

    /// The circle around a center with a radius.
    pub fn circle_from_center_and_radius(center: Point2, radius: i64) -> (p: SurfacePath)
        ensures
            p == SurfacePath::Circle(
                Circle2 {
                    center,
                    a: Vector2 { u: radius, v: 0 },
                    b: Vector2 { u: 0, v: radius },
                },
            ),
    {
        SurfacePath::Circle(Circle2::from_center_and_radius(center, radius))
    }

    pub open spec fn can_reverse(self) -> bool {
        match self {
            SurfacePath::Circle(circle) => circle.can_reverse(),
            SurfacePath::Line(line) => line.can_reverse(),
        }
    }

    pub open spec fn spec_reverse(self) -> SurfacePath {
        match self {
            SurfacePath::Circle(circle) => SurfacePath::Circle(circle.spec_reverse()),
            SurfacePath::Line(line) => SurfacePath::Line(line.spec_reverse()),
        }
    }

    /// The same path, travelled the other way.
    pub fn reverse(self) -> (r: SurfacePath)
        requires
            self.can_reverse(),
        ensures
            r == self.spec_reverse(),
    {
        match self {
            SurfacePath::Circle(circle) => SurfacePath::Circle(circle.reverse()),
            SurfacePath::Line(line) => SurfacePath::Line(line.reverse()),
        }
    }
}

impl GlobalPath {
    /// The x-axis, with the model's unit length as its direction.
    pub fn x_axis() -> (p: GlobalPath)
        ensures
            p == GlobalPath::Line(
                Line3 {
                    origin: Point3 { x: 0, y: 0, z: 0 },
                    direction: Vector3 { x: 1, y: 0, z: 0 },
                },
            ),
    {
        GlobalPath::Line(
            Line3 { origin: Point3 { x: 0, y: 0, z: 0 }, direction: Vector3 { x: 1, y: 0, z: 0 } },
        )
    }

    /// The y-axis.
    pub fn y_axis() -> (p: GlobalPath)
        ensures
            p == GlobalPath::Line(
                Line3 {
                    origin: Point3 { x: 0, y: 0, z: 0 },
                    direction: Vector3 { x: 0, y: 1, z: 0 },
                },
            ),
    {
        GlobalPath::Line(
            Line3 { origin: Point3 { x: 0, y: 0, z: 0 }, direction: Vector3 { x: 0, y: 1, z: 0 } },
        )
    }

    /// The z-axis.
    pub fn z_axis() -> (p: GlobalPath)
        ensures
            p == GlobalPath::Line(
                Line3 {
                    origin: Point3 { x: 0, y: 0, z: 0 },
                    direction: Vector3 { x: 0, y: 0, z: 1 },
                },
            ),
    {
        GlobalPath::Line(
            Line3 { origin: Point3 { x: 0, y: 0, z: 0 }, direction: Vector3 { x: 0, y: 0, z: 1 } },
        )
    }

    /// The circle around the origin in the xy-plane with a radius.
    pub fn circle_from_radius(radius: i64) -> (p: GlobalPath)
        ensures
            p == GlobalPath::Circle(
                Circle3 {
                    center: Point3 { x: 0, y: 0, z: 0 },
                    a: Vector3 { x: radius, y: 0, z: 0 },
                    b: Vector3 { x: 0, y: radius, z: 0 },
                },
            ),
    {
        GlobalPath::Circle(Circle3::from_radius(radius))
    }

    pub open spec fn can_reverse(self) -> bool {
        match self {
            GlobalPath::Circle(circle) => circle.can_reverse(),
            GlobalPath::Line(line) => line.can_reverse(),
        }
    }

    pub open spec fn spec_reverse(self) -> GlobalPath {
        match self {
            GlobalPath::Circle(circle) => GlobalPath::Circle(circle.spec_reverse()),
            GlobalPath::Line(line) => GlobalPath::Line(line.spec_reverse()),
        }
    }

    /// The same path, travelled the other way.
    pub fn reverse(self) -> (r: GlobalPath)
        requires
            self.can_reverse(),
        ensures
            r == self.spec_reverse(),
    {
        match self {
            GlobalPath::Circle(circle) => GlobalPath::Circle(circle.reverse()),
            GlobalPath::Line(line) => GlobalPath::Line(line.reverse()),
        }
    }
}

} // verus!
