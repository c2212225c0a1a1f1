//! Where a circle is sampled.
//!
//! A full circle is approximated by a number of vertices that are evenly
//! spaced around it, the first at angle 0. The samples of a piece of the
//! circle are the vertices strictly between its two ends: the ends belong
//! to the vertices of the shape.

use vstd::prelude::*;
use vstd::arithmetic::div_mod::{
    lemma_fundamental_div_mod, lemma_fundamental_div_mod_converse, lemma_mod_bound,
};
use crate::geometry::boundary::CurveBoundary;
use crate::geometry::path::{Line2, FULL_TURN};
use crate::math::Point1;

verus! {

/// The number of vertices that approximate a full circle: three at least.
#[derive(Clone, Copy, Debug, PartialEq, Eq, Hash)]
pub struct VertexCount {
    count: u32,
}

impl VertexCount {
    #[verifier::type_invariant]
    spec fn wf(&self) -> bool {
        self.count >= 3
    }

    /// The number of vertices.
    pub closed spec fn value(&self) -> int {
        self.count as int
    }

    /// The count of at least three vertices that comes nearest to a number.
    pub fn new(count: u32) -> (r: VertexCount)
        ensures
            r.value() == if count < 3 {
                3
            } else {
                count as int
            },
    {
        if count < 3 {
            VertexCount { count: 3 }
        } else {
            VertexCount { count }
        }
    }

    /// The number of vertices.
    pub fn get(&self) -> (n: u32)
        ensures
            n == self.value(),
            n >= 3,
    {
        proof {
            use_type_invariant(self);
        }
        self.count
    }
}

/// The angle of a vertex of a circle that `n` vertices approximate: the
/// given part of `n` parts of a full turn, rounded down.
pub open spec fn angle_at(index: int, n: int) -> int {
    (index * FULL_TURN) / n
}

/// The quotient of two numbers, rounded up.
pub open spec fn ceil_div(x: int, d: int) -> int {
    (x + d - 1) / d
}

/// The first vertex whose angle is above `lo`.
pub open spec fn first_index(lo: int, n: int) -> int {
    ceil_div((lo + 1) * n, FULL_TURN as int)
}

/// The last vertex whose angle is below `hi`.
pub open spec fn last_index(hi: int, n: int) -> int {
    ceil_div(hi * n, FULL_TURN as int) - 1
}

/// The angles of the vertices strictly between `lo` and `hi`, in ascending
/// order.
pub open spec fn angles_between(lo: int, hi: int, n: int) -> Seq<Point1> {
    let first = first_index(lo, n);
    let last = last_index(hi, n);
    Seq::new(
        if last >= first {
            (last - first + 1) as nat
        } else {
            0
        },
        |k: int| Point1 { t: angle_at(first + k, n) as i64 },
    )
}

/// The angles at which a circle is sampled within a range: those of the
/// vertices strictly between the two ends, in the direction of the range.
pub open spec fn sample_angles_of(range: CurveBoundary, n: int) -> Seq<Point1> {
    if range.start.t <= range.end.t {
        angles_between(range.lo(), range.hi(), n)
    } else {
        angles_between(range.lo(), range.hi(), n).reverse()
    }
}

/// A quotient is at least `q` exactly if the dividend is at least `q` times
/// the divisor.
pub proof fn lemma_floor_div(x: int, d: int, q: int)
    requires
        d > 0,
    ensures
        x / d >= q <==> x >= q * d,
{
    lemma_fundamental_div_mod(x, d);
    lemma_mod_bound(x, d);
    let p = x / d;
    if p >= q {
        assert(d * p >= q * d) by (nonlinear_arith)
            requires
                p >= q,
                d > 0,
        ;
    } else {
        assert(d * p + d <= q * d) by (nonlinear_arith)
            requires
                p + 1 <= q,
                d > 0,
        ;
    }
}

/// A number is at least a quotient rounded up exactly if its product with
/// the divisor is at least the dividend.
pub proof fn lemma_ceil_div(x: int, d: int, i: int)
    requires
        d > 0,
    ensures
        i >= ceil_div(x, d) <==> i * d >= x,
{
    lemma_floor_div(x + d - 1, d, i + 1);
    assert((i + 1) * d == i * d + d) by (nonlinear_arith);
}

/// The angle of a vertex is strictly between `lo` and `hi` exactly for the
/// vertices from the first index to the last.
pub proof fn lemma_angle_between(lo: int, hi: int, n: int, index: int)
    requires
        n > 0,
    ensures
        lo < angle_at(index, n) <==> first_index(lo, n) <= index,
        angle_at(index, n) < hi <==> index <= last_index(hi, n),
{
    lemma_floor_div(index * FULL_TURN, n, lo + 1);
    lemma_ceil_div((lo + 1) * n, FULL_TURN as int, index);
    lemma_floor_div(index * FULL_TURN, n, hi);
    lemma_ceil_div(hi * n, FULL_TURN as int, index);
}

/// Every angle at which a circle is sampled lies strictly inside the
/// range, and every vertex whose angle lies strictly inside is sampled.
pub proof fn lemma_samples_are_the_vertices_inside(range: CurveBoundary, n: int)
    requires
        n > 0,
    ensures
        forall|k: int|
            0 <= k < sample_angles_of(range, n).len() ==> range.spec_contains(
                #[trigger] sample_angles_of(range, n)[k],
            ),
        forall|index: int|
            range.lo() < #[trigger] angle_at(index, n) < range.hi() ==> sample_angles_of(
                range,
                n,
            ).contains(Point1 { t: angle_at(index, n) as i64 }),
{
    let lo = range.lo();
    let hi = range.hi();
    let first = first_index(lo, n);
    let last = last_index(hi, n);
    let up = angles_between(lo, hi, n);
    let all = sample_angles_of(range, n);
    assert forall|k: int| 0 <= k < up.len() implies lo < (#[trigger] up[k]).t < hi by {
        lemma_angle_between(lo, hi, n, first + k);
    }
    assert forall|k: int| 0 <= k < all.len() implies range.spec_contains(#[trigger] all[k]) by {
        if range.start.t <= range.end.t {
            assert(all[k] == up[k]);
        } else {
            assert(all[k] == up[up.len() - 1 - k]);
        }
    }
    assert forall|index: int| lo < #[trigger] angle_at(index, n) < hi implies all.contains(
        Point1 { t: angle_at(index, n) as i64 },
    ) by {
        lemma_angle_between(lo, hi, n, index);
        let k = index - first;
        assert(up[k] == Point1 { t: angle_at(index, n) as i64 });
        if range.start.t <= range.end.t {
            assert(all[k] == up[k]);
        } else {
            assert(all[up.len() - 1 - k] == up[k]);
        }
    }
}

/// The angle between two vertices that follow one another is one part of
/// `n` parts of a full turn, rounded down or up.
pub proof fn lemma_vertex_spacing(index: int, n: int)
    requires
        n > 0,
    ensures
        (FULL_TURN as int) / n <= angle_at(index + 1, n) - angle_at(index, n) <= (FULL_TURN as int) / n + 1,
{
    let f = FULL_TURN as int;
    let a = index * f;
    let b = (index + 1) * f;
    assert(b == a + f) by (nonlinear_arith)
        requires
            a == index * f,
            b == (index + 1) * f,
    ;
    lemma_fundamental_div_mod(a, n);
    lemma_mod_bound(a, n);
    lemma_fundamental_div_mod(b, n);
    lemma_mod_bound(b, n);
    lemma_fundamental_div_mod(f, n);
    lemma_mod_bound(f, n);
    let step = b / n - a / n;
    let whole = f / n;
    assert(whole <= step <= whole + 1) by (nonlinear_arith)
        requires
            n > 0,
            a == n * (a / n) + a % n,
            b == n * (b / n) + b % n,
            f == n * whole + f % n,
            b == a + f,
            0 <= a % n < n,
            0 <= b % n < n,
            0 <= f % n < n,
            step == b / n - a / n,
    ;
}

/// Between two samples that follow one another, and between an end of the
/// range and the sample next to it, lies at most one part of `n` parts of a
/// full turn, and one unit for rounding. Where there is no sample, the
/// whole range is no longer than that. So no chord of the approximation
/// spans more of the circle than a side of the polygon of `n` vertices.
pub proof fn lemma_sample_spacing(lo: int, hi: int, n: int)
    requires
        n > 0,
        i64::MIN <= lo < hi <= i64::MAX,
    ensures
        ({
            let samples = angles_between(lo, hi, n);
            let most = (FULL_TURN as int) / n + 1;
            &&& samples.len() == 0 ==> hi - lo <= most
            &&& samples.len() > 0 ==> 0 < samples[0].t - lo <= most && 0 < hi - samples.last().t
                <= most
            &&& forall|k: int|
                0 <= k < samples.len() - 1 ==> 0 <= (#[trigger] samples[k + 1]).t - samples[k].t
                    <= most
        }),
{
    let samples = angles_between(lo, hi, n);
    let first = first_index(lo, n);
    let last = last_index(hi, n);
    lemma_angle_between(lo, hi, n, first - 1);
    lemma_angle_between(lo, hi, n, first);
    lemma_angle_between(lo, hi, n, last);
    lemma_angle_between(lo, hi, n, last + 1);
    lemma_vertex_spacing(first - 1, n);
    lemma_vertex_spacing(last, n);
    lemma_fundamental_div_mod(FULL_TURN as int, n);
    lemma_mod_bound(FULL_TURN as int, n);
    assert((FULL_TURN as int) / n >= 0) by (nonlinear_arith)
        requires
            n > 0,
            (FULL_TURN as int) == n * ((FULL_TURN as int) / n) + (FULL_TURN as int) % n,
            0 <= (FULL_TURN as int) % n < n,
    ;
    if samples.len() > 0 {
        assert(samples[0].t == angle_at(first, n));
        assert(samples.last().t == angle_at(last, n));
    }
    assert forall|k: int| 0 <= k < samples.len() - 1 implies 0 <= (#[trigger] samples[k + 1]).t
        - samples[k].t <= (FULL_TURN as int) / n + 1 by {
        lemma_angle_between(lo, hi, n, first + k);
        lemma_angle_between(lo, hi, n, first + k + 1);
        lemma_vertex_spacing(first + k, n);
        assert(samples[k].t == angle_at(first + k, n));
        assert(samples[k + 1].t == angle_at(first + k + 1, n));
    }
}

/// The samples within a reversed range are the samples within the range,
/// in opposite order.
pub proof fn lemma_sample_angles_reverse(range: CurveBoundary, n: int)
    requires
        n > 0,
    ensures
        sample_angles_of(range.spec_reverse(), n) == sample_angles_of(range, n).reverse(),
{
    let lo = range.lo();
    let hi = range.hi();
    let up = angles_between(lo, hi, n);
    assert(range.spec_reverse().lo() == lo);
    assert(range.spec_reverse().hi() == hi);
    if range.start.t == range.end.t {
        if up.len() > 0 {
            lemma_angle_between(lo, hi, n, first_index(lo, n));
        }
        assert(up.reverse() =~= up);
    } else if range.start.t > range.end.t {
        assert(up.reverse().reverse() =~= up);
    }
}

/// The parameter on a line at which its first surface coordinate is `u`,
/// rounded down where the line does not reach `u` at a whole parameter.
pub open spec fn line_parameter(line: Line2, u: int) -> int {
    let origin = line.origin.u as int;
    let direction = line.direction.u as int;
    if direction > 0 {
        (u - origin) / direction
    } else if direction < 0 {
        (origin - u) / (-direction)
    } else {
        0
    }
}

/// The parameters on a line at which its first surface coordinate is each
/// of the given angles, rounded down.
pub open spec fn line_parameters(line: Line2, angles: Seq<Point1>) -> Seq<Point1> {
    Seq::new(
        angles.len(),
        |k: int| Point1 { t: line_parameter(line, angles[k].t as int) as i64 },
    )
}

/// Whether a range on the first surface coordinate is what a line reaches
/// within a boundary.
pub open spec fn reaches(line: Line2, boundary: CurveBoundary, range: CurveBoundary) -> bool {
    &&& range.start.t == line.origin.u + line.direction.u * boundary.start.t
    &&& range.end.t == line.origin.u + line.direction.u * boundary.end.t
}

/// Where a line is strictly inside the range that it reaches within a
/// boundary, its parameter, rounded down, is at least the smaller end of
/// the boundary and below the larger one.
pub proof fn lemma_line_parameter_within(
    line: Line2,
    boundary: CurveBoundary,
    range: CurveBoundary,
    u: int,
)
    requires
        reaches(line, boundary, range),
        range.lo() < u < range.hi(),
    ensures
        line.direction.u != 0,
        boundary.lo() <= line_parameter(line, u) < boundary.hi(),
{
    let o = line.origin.u as int;
    let d = line.direction.u as int;
    let lo = boundary.lo();
    let hi = boundary.hi();
    if d > 0 {
        assert(o + d * lo == range.lo() && o + d * hi == range.hi()) by (nonlinear_arith)
            requires
                d > 0,
                lo <= hi,
                (range.lo() == o + d * lo && range.hi() == o + d * hi) || (range.lo() == o + d
                    * hi && range.hi() == o + d * lo),
                range.lo() <= range.hi(),
        ;
        assert(lo * d == d * lo && hi * d == d * hi) by (nonlinear_arith);
        lemma_floor_div(u - o, d, lo);
        lemma_floor_div(u - o, d, hi);
    } else if d < 0 {
        let e = -d;
        assert(o - e * hi == range.lo() && o - e * lo == range.hi()) by (nonlinear_arith)
            requires
                e > 0,
                d == -e,
                lo <= hi,
                (range.lo() == o + d * lo && range.hi() == o + d * hi) || (range.lo() == o + d
                    * hi && range.hi() == o + d * lo),
                range.lo() <= range.hi(),
        ;
        assert(lo * e == e * lo && hi * e == e * hi) by (nonlinear_arith);
        lemma_floor_div(o - u, e, lo);
        lemma_floor_div(o - u, e, hi);
    } else {
        assert(d * boundary.start.t == 0 && d * boundary.end.t == 0) by (nonlinear_arith)
            requires
                d == 0,
        ;
    }
}

/// Divide by a positive number and round down.
fn floor_div(a: i128, d: i128) -> (q: i128)
    requires
        d > 0,
        a > i128::MIN,
    ensures
        q == a / d,
{
    if a >= 0 {
        a / d
    } else {
        let below: i128 = (-(a + 1)) / d;
        proof {
            let x = -(a + 1) as int;
            lemma_fundamental_div_mod(x, d as int);
            lemma_mod_bound(x, d as int);
            let q = -(x / (d as int)) - 1;
            let r = d - 1 - x % (d as int);
            assert(a == q * d + r) by (nonlinear_arith)
                requires
                    x == d * (x / (d as int)) + x % (d as int),
                    x == -(a + 1),
                    q == -(x / (d as int)) - 1,
                    r == d - 1 - x % (d as int),
            ;
            lemma_fundamental_div_mod_converse(a as int, d as int, q, r);
        }
        -below - 1
    }
}

/// The product of a coordinate, or a number next to one, and a count.
fn times(a: i128, b: i128) -> (p: i128)
    requires
        -0x1_0000_0000_0000_0000 <= a <= 0x1_0000_0000_0000_0000,
        0 <= b <= 0x1_0000_0000,
    ensures
        p == a * b,
        -0x1_0000_0000_0000_0000_0000_0000 <= p <= 0x1_0000_0000_0000_0000_0000_0000,
{
    assert(-0x1_0000_0000_0000_0000_0000_0000 <= a * b <= 0x1_0000_0000_0000_0000_0000_0000)
        by (nonlinear_arith)
        requires
            -0x1_0000_0000_0000_0000 <= a <= 0x1_0000_0000_0000_0000,
            0 <= b <= 0x1_0000_0000,
    ;
    a * b
}

/// The index of the first vertex whose angle is above `lo`.
fn first_vertex(lo: i64, n: u32) -> (first: i128)
    requires
        n >= 3,
    ensures
        first == first_index(lo as int, n as int),
        -0x8000_0000_0000_0000 <= first <= 0x8000_0000_0000_0001,
{
    let x: i128 = times((lo as i128) + 1, n as i128);
    let first = floor_div(x + (FULL_TURN as i128) - 1, FULL_TURN as i128);
    proof {
        assert(-0x8000_0000_0000_0000_0000_0000 <= x <= 0x8000_0000_0000_0000_0000_0000)
            by (nonlinear_arith)
            requires
                x == (lo + 1) * n,
                -0x8000_0000_0000_0000 <= lo + 1 <= 0x8000_0000_0000_0000,
                0 <= n <= 0x1_0000_0000,
        ;
        lemma_ceil_div(x as int, FULL_TURN as int, -0x8000_0000_0000_0001);
        lemma_ceil_div(x as int, FULL_TURN as int, 0x8000_0000_0000_0001);
    }
    first
}

/// The index of the last vertex whose angle is below `hi`.
fn last_vertex(hi: i64, n: u32) -> (last: i128)
    requires
        n >= 3,
    ensures
        last == last_index(hi as int, n as int),
        -0x8000_0000_0000_0001 <= last <= 0x8000_0000_0000_0000,
{
    let x: i128 = times(hi as i128, n as i128);
    let beyond = floor_div(x + (FULL_TURN as i128) - 1, FULL_TURN as i128);
    proof {
        assert(-0x8000_0000_0000_0000_0000_0000 <= x <= 0x8000_0000_0000_0000_0000_0000)
            by (nonlinear_arith)
            requires
                x == hi * n,
                -0x8000_0000_0000_0000 <= hi <= 0x8000_0000_0000_0000,
                0 <= n <= 0x1_0000_0000,
        ;
        lemma_ceil_div(x as int, FULL_TURN as int, -0x8000_0000_0000_0001);
        lemma_ceil_div(x as int, FULL_TURN as int, 0x8000_0000_0000_0001);
    }
    beyond - 1
}

/// The angle of a vertex that lies strictly between two coordinates.
fn vertex_angle(index: i128, n: u32, Ghost(lo): Ghost<int>, Ghost(hi): Ghost<int>) -> (angle: i64)
    requires
        n >= 3,
        -0x8000_0000_0000_0001 <= index <= 0x8000_0000_0000_0001,
        i64::MIN <= lo < angle_at(index as int, n as int) < hi <= i64::MAX,
    ensures
        angle == angle_at(index as int, n as int),
{
    let turned: i128 = times(index, FULL_TURN as i128);
    let angle = floor_div(turned, n as i128);
    angle as i64
}

/// The angles at which to sample a circle that `count` vertices
/// approximate, within a range: the angles of the vertices strictly between
/// the two ends of the range, in the direction of the range.
pub fn sample_angles(range: CurveBoundary, count: VertexCount) -> (angles: Vec<Point1>)
    ensures
        angles@ == sample_angles_of(range, count.value()),
        forall|k: int| 0 <= k < angles@.len() ==> range.spec_contains(#[trigger] angles@[k]),
{
    let n = count.get();
    let forward = range.is_normalized();
    let bounds = range.normalize();
    let first = first_vertex(bounds.start.t, n);
    let last = last_vertex(bounds.end.t, n);
    let ghost lo = range.lo();
    let ghost hi = range.hi();
    let ghost up = angles_between(lo, hi, n as int);
    let mut angles: Vec<Point1> = Vec::new();
    if last < first {
        proof {
            assert(up =~= Seq::<Point1>::empty());
            assert(up.reverse() =~= Seq::<Point1>::empty());
        }
        return angles;
    }
    if forward {
        let mut index: i128 = first;
        while index <= last
            invariant
                n >= 3,
                first <= index <= last + 1,
                -0x8000_0000_0000_0000 <= first,
                last <= 0x8000_0000_0000_0000,
                first == first_index(lo, n as int),
                last == last_index(hi, n as int),
                i64::MIN <= lo <= i64::MAX,
                i64::MIN <= hi <= i64::MAX,
                up == angles_between(lo, hi, n as int),
                angles@ == up.subrange(0, index - first),
            decreases last + 1 - index,
        {
            proof {
                lemma_angle_between(lo, hi, n as int, index as int);
            }
            let angle = vertex_angle(index, n, Ghost(lo), Ghost(hi));
            angles.push(Point1 { t: angle });
            proof {
                assert(up.subrange(0, index + 1 - first) =~= up.subrange(0, index - first).push(
                    up[index - first],
                ));
            }
            index = index + 1;
        }
        proof {
            assert(up.subrange(0, up.len() as int) =~= up);
        }
    } else {
        let mut index: i128 = last;
        while index >= first
            invariant
                n >= 3,
                first - 1 <= index <= last,
                -0x8000_0000_0000_0000 <= first,
                last <= 0x8000_0000_0000_0000,
                first == first_index(lo, n as int),
                last == last_index(hi, n as int),
                i64::MIN <= lo <= i64::MAX,
                i64::MIN <= hi <= i64::MAX,
                up == angles_between(lo, hi, n as int),
                angles@ == up.reverse().subrange(0, last - index),
            decreases index - first + 1,
        {
            proof {
                lemma_angle_between(lo, hi, n as int, index as int);
            }
            let angle = vertex_angle(index, n, Ghost(lo), Ghost(hi));
            angles.push(Point1 { t: angle });
            proof {
                let down = up.reverse();
                assert(down[last - index] == up[index - first]);
                assert(down.subrange(0, last - index + 1) =~= down.subrange(0, last - index).push(
                    down[last - index],
                ));
            }
            index = index - 1;
        }
        proof {
            assert(up.reverse().subrange(0, up.len() as int) =~= up.reverse());
        }
    }
    proof {
        lemma_samples_are_the_vertices_inside(range, n as int);
    }
    angles
}

/// The parameters on a line at which its first surface coordinate is each
/// of the given angles, rounded down, for angles strictly inside the range
/// that the line reaches within a boundary.
pub(crate) fn line_parameters_of(
    line: &Line2,
    boundary: CurveBoundary,
    range: CurveBoundary,
    angles: &Vec<Point1>,
) -> (params: Vec<Point1>)
    requires
        reaches(*line, boundary, range),
        forall|k: int| 0 <= k < angles@.len() ==> range.spec_contains(#[trigger] angles@[k]),
    ensures
        params@ == line_parameters(*line, angles@),
        forall|k: int|
            0 <= k < params@.len() ==> boundary.lo() <= (#[trigger] params@[k]).t < boundary.hi(),
{
    let mut params: Vec<Point1> = Vec::new();
    let mut k: usize = 0;
    while k < angles.len()
        invariant
            k <= angles.len(),
            params@.len() == k,
            reaches(*line, boundary, range),
            forall|j: int| 0 <= j < angles@.len() ==> range.spec_contains(#[trigger] angles@[j]),
            forall|j: int|
                0 <= j < k ==> (#[trigger] params@[j]) == line_parameters(*line, angles@)[j]
                    && boundary.lo() <= params@[j].t < boundary.hi(),
        decreases angles.len() - k,
    {
        let u = angles[k].t;
        proof {
            assert(range.spec_contains(angles@[k as int]));
            lemma_line_parameter_within(*line, boundary, range, u as int);
        }
        let t: i128 = if line.direction.u > 0 {
            floor_div((u as i128) - (line.origin.u as i128), line.direction.u as i128)
        } else {
            floor_div((line.origin.u as i128) - (u as i128), -(line.direction.u as i128))
        };
        params.push(Point1 { t: t as i64 });
        k += 1;
    }
    proof {
        assert(params@ =~= line_parameters(*line, angles@));
    }
    params
}

} // verus!
