//! Points, vectors and small geometric values in fixed-point coordinates.
//!
//! Every coordinate is an integer count of the kernel's length unit; curve
//! parameters are integers in the same way.

use vstd::prelude::*;

verus! {

/// A point on a curve, given by its curve parameter.
#[derive(Clone, Copy, Debug, PartialEq, Eq, Structural, Hash, PartialOrd, Ord)]
pub struct Point1 {
    pub t: i64,
}

/// A point on a surface, in surface coordinates.
#[derive(Clone, Copy, Debug, PartialEq, Eq, Structural, Hash, PartialOrd, Ord)]
pub struct Point2 {
    pub u: i64,
    pub v: i64,
}

/// A point in model space.
#[derive(Clone, Copy, Debug, PartialEq, Eq, Structural, Hash, PartialOrd, Ord)]
pub struct Point3 {
    pub x: i64,
    pub y: i64,
    pub z: i64,
}

/// A direction or displacement on a surface.
#[derive(Clone, Copy, Debug, PartialEq, Eq, Structural, Hash, PartialOrd, Ord)]
pub struct Vector2 {
    pub u: i64,
    pub v: i64,
}

/// A direction or displacement in model space.
#[derive(Clone, Copy, Debug, PartialEq, Eq, Structural, Hash, PartialOrd, Ord)]
pub struct Vector3 {
    pub x: i64,
    pub y: i64,
    pub z: i64,
}

/// The rotational direction of a closed cycle.
#[derive(Clone, Copy, Debug, PartialEq, Eq, Structural, Hash)]
pub enum Winding {
    /// Counter-clockwise
    Ccw,
    /// Clockwise
    Cw,
}

impl Point1 {
    pub fn new(t: i64) -> (p: Point1)
        ensures
            p.t == t,
    {
        Point1 { t }
    }
}

impl Point2 {
    pub fn new(u: i64, v: i64) -> (p: Point2)
        ensures
            p.u == u,
            p.v == v,
    {
        Point2 { u, v }
    }
}

impl Point3 {
    pub fn new(x: i64, y: i64, z: i64) -> (p: Point3)
        ensures
            p.x == x,
            p.y == y,
            p.z == z,
    {
        Point3 { x, y, z }
    }
}

impl Winding {
    /// The opposite rotational direction.
    pub open spec fn spec_reverse(self) -> Winding {
        match self {
            Winding::Ccw => Winding::Cw,
            Winding::Cw => Winding::Ccw,
        }
    }

    pub fn reverse(self) -> (w: Winding)
        ensures
            w == self.spec_reverse(),
    {
        match self {
            Winding::Ccw => Winding::Cw,
            Winding::Cw => Winding::Ccw,
        }
    }

    pub fn is_ccw(&self) -> (b: bool)
        ensures
            b == (*self == Winding::Ccw),
    {
        matches!(self, Winding::Ccw)
    }

    pub fn is_cw(&self) -> (b: bool)
        ensures
            b == (*self == Winding::Cw),
    {
        matches!(self, Winding::Cw)
    }
}

/// Whether a number can be written as a coordinate.
pub open spec fn fits(x: int) -> bool {
    i64::MIN <= x <= i64::MAX
}

/// `origin + a * u + b * v`, as a number.
pub open spec fn affine(origin: int, a: int, u: int, b: int, v: int) -> int {
    origin + a * u + b * v
}

/// The product of two coordinates, which always fits the wider type.
pub fn product(a: i64, b: i64) -> (p: i128)
    ensures
        p == a * b,
        -0x3fff_ffff_ffff_ffff_8000_0000_0000_0000 <= p <= 0x4000_0000_0000_0000_0000_0000_0000_0000,
{
    assert(-0x3fff_ffff_ffff_ffff_8000_0000_0000_0000 <= a * b
        <= 0x4000_0000_0000_0000_0000_0000_0000_0000) by (nonlinear_arith)
        requires
            -0x8000_0000_0000_0000 <= a <= 0x7fff_ffff_ffff_ffff,
            -0x8000_0000_0000_0000 <= b <= 0x7fff_ffff_ffff_ffff,
    ;
    (a as i128) * (b as i128)
}

/// Compute `origin + a * u + b * v`, if the result can be written as a
/// coordinate.
pub fn checked_affine(origin: i64, a: i64, u: i64, b: i64, v: i64) -> (r: Option<i64>)
    ensures
        r.is_some() <==> fits(affine(origin as int, a as int, u as int, b as int, v as int)),
        r.is_some() ==> r.unwrap() == affine(origin as int, a as int, u as int, b as int, v as int),
{
    let first: i128 = product(a, u);
    let second: i128 = product(b, v);
    let part: i128 = first + (origin as i128);
    if part > 0 && second > i128::MAX - part {
        return None;
    }
    if part < 0 && second < i128::MIN - part {
        return None;
    }
    let sum: i128 = part + second;
    if sum < (i64::MIN as i128) || sum > (i64::MAX as i128) {
        None
    } else {
        Some(sum as i64)
    }
}

/// A sum of products of coordinates that is too wide for any machine
/// integer: it is kept as `hi * 2^64 + lo`.
pub struct WideSum {
    hi: i128,
    lo: i128,
    count: usize,
}

impl WideSum {
    /// The number that the sum has reached.
    pub closed spec fn value(&self) -> int {
        self.hi * 0x1_0000_0000_0000_0000 + self.lo
    }

    /// How many terms were added.
    pub closed spec fn terms(&self) -> nat {
        self.count as nat
    }

    #[verifier::type_invariant]
    spec fn wf(&self) -> bool {
        &&& 0 <= self.lo < 0x1_0000_0000_0000_0000
        &&& -self.count * 0x8000_0000_0000_0000 <= self.hi <= self.count * 0x8000_0000_0000_0000
    }

    /// A term that can be added: the difference of two products of
    /// coordinates is always one.
    pub open spec fn is_term(t: int) -> bool {
        -0x8000_0000_0000_0000_0000_0000_0000_0000 <= t < 0x8000_0000_0000_0000_0000_0000_0000_0000
    }

    /// The empty sum.
    pub fn zero() -> (s: WideSum)
        ensures
            s.value() == 0,
            s.terms() == 0,
    {
        WideSum { hi: 0, lo: 0, count: 0 }
    }

    /// Add a term.
    pub fn add_term(&mut self, t: i128)
        requires
            old(self).terms() < usize::MAX,
        ensures
            final(self).value() == old(self).value() + t,
            final(self).terms() == old(self).terms() + 1,
    {
        proof {
            use_type_invariant(&*self);
        }
        let th: i128 = if t >= 0 {
            t / 0x1_0000_0000_0000_0000
        } else {
            -((-(t + 1)) / 0x1_0000_0000_0000_0000) - 1
        };
        let tl: i128 = t - th * 0x1_0000_0000_0000_0000;
        assert(0 <= tl < 0x1_0000_0000_0000_0000);
        assert(-0x8000_0000_0000_0000 <= th < 0x8000_0000_0000_0000);
        let low: i128 = self.lo + tl;
        let carry: i128 = if low >= 0x1_0000_0000_0000_0000 {
            1
        } else {
            0
        };
        let hi: i128 = self.hi + th + carry;
        let lo: i128 = low - carry * 0x1_0000_0000_0000_0000;
        let count: usize = self.count + 1;
        *self = WideSum { hi, lo, count };
    }

    /// The sign of the sum: `1`, `-1` or `0`.
    pub fn sign(&self) -> (s: i8)
        ensures
            s == if self.value() > 0 {
                1int
            } else if self.value() < 0 {
                -1int
            } else {
                0int
            },
    {
        proof {
            use_type_invariant(self);
        }
        if self.hi > 0 || (self.hi == 0 && self.lo > 0) {
            1
        } else if self.hi < 0 {
            -1
        } else {
            0
        }
    }
}

} // verus!
