//! Approximation of a curve on a surface.
//!
//! A straight curve on a flat surface needs no points between its ends. A
//! circle does. At which angles it is sampled is for the kernel to say, but
//! how many vertices a tolerance asks for, and where on the circle a sample
//! lies, takes arithmetic that exact coordinates cannot do. So
//! approximating goes in two steps: first the kernel says which circle has
//! to be sampled, if any; then it is handed the number of vertices and the
//! points at its sample angles, and completes the approximation.

use vstd::prelude::*;
use crate::algorithms::approx::cache::{
    cached, is_symmetric, lemma_insert_keeps_symmetry, lemma_reverse_symmetry, CacheKey,
    CurveApproxCache,
};
use crate::algorithms::approx::points::{inside, ApproxPoint, CurveApproxPoints};
use crate::algorithms::approx::sampling::{
    lemma_sample_angles_reverse, line_parameters, line_parameters_of, sample_angles,
    sample_angles_of, VertexCount,
};
use crate::algorithms::approx::segment::{CurveApproxSegment, SegmentModel};
use crate::algorithms::approx::tolerance::Tolerance;
use crate::geometry::boundary::CurveBoundary;
use crate::geometry::path::{Circle2, GlobalPath, Line2, SurfacePath};
use crate::geometry::surfaces::SurfaceGeom;
use crate::geometry::table::HalfEdgeGeom;
use crate::math::{affine, checked_affine, fits, Point1, Point2, Point3};
use crate::storage::Handle;
use crate::topology::edge::Curve;

verus! {

/// Why a curve could not be approximated.
#[derive(Clone, Copy, Debug, PartialEq, Eq, Structural, Hash)]
pub enum ApproxError {
    /// A circle on a curved surface: there is no way yet to approximate it.
    Unsupported,
    /// A point of the approximation, or an end of the range to sample,
    /// cannot be written as coordinates.
    OutOfRange,
    /// The samples do not answer the request: they are of another kind, or
    /// there is not one point for each angle at which the range is sampled.
    WrongSamples,
}

/// A request for samples of a circle: how many vertices approximate the
/// full circle within the tolerance, and the points at the angles of the
/// vertices strictly between the two ends of a range, in the direction of
/// the range.
#[derive(Clone, Copy, Debug, PartialEq, Eq)]
pub enum SampleRequest {
    /// Sample a circle on a flat surface. The answer gives the points on
    /// the surface.
    Circle { circle: Circle2, boundary: CurveBoundary, tolerance: Tolerance },
    /// Sample the circle that a curved surface sweeps, within the range
    /// that a line on the surface reaches. The answer gives the points of
    /// the line in model space, where its first surface coordinate is the
    /// angle of the sample.
    SweptCircle { line: Line2, surface: SurfaceGeom, range: CurveBoundary, tolerance: Tolerance },
}

/// The answer to a request for samples.
#[derive(Clone, Debug, PartialEq, Eq)]
#[allow(inconsistent_fields)]
pub enum Samples {
    /// No samples, where none are asked for.
    Nothing,
    /// The answer to [`SampleRequest::Circle`].
    OnSurface { vertices: VertexCount, points: Vec<Point2> },
    /// The answer to [`SampleRequest::SweptCircle`].
    InSpace { vertices: VertexCount, points: Vec<Point3> },
}

/// What approximating a curve takes.
#[derive(Clone, Copy, Debug, PartialEq, Eq)]
pub enum CurvePlan {
    /// Nothing: there are no points between the ends.
    Finished,
    /// Samples of a circle.
    Sample(SampleRequest),
}

/// The range on the first surface coordinate that a line reaches within a
/// boundary, if its ends can be written.
pub open spec fn range_on_surface(line: Line2, boundary: CurveBoundary) -> Option<CurveBoundary> {
    let start = affine(line.origin.u as int, line.direction.u as int, boundary.start.t as int, 0, 0);
    let end = affine(line.origin.u as int, line.direction.u as int, boundary.end.t as int, 0, 0);
    if fits(start) && fits(end) {
        Some(CurveBoundary { start: Point1 { t: start as i64 }, end: Point1 { t: end as i64 } })
    } else {
        None
    }
}

/// What approximating a curve takes, by the kind of its path and the kind
/// of path that its surface sweeps.
pub open spec fn plan_of(
    path: SurfacePath,
    surface: SurfaceGeom,
    boundary: CurveBoundary,
    tolerance: Tolerance,
) -> Result<CurvePlan, ApproxError> {
    match (path, surface.u) {
        (SurfacePath::Circle(_), GlobalPath::Circle(_)) => Err(ApproxError::Unsupported),
        (SurfacePath::Circle(circle), GlobalPath::Line(_)) => Ok(
            CurvePlan::Sample(SampleRequest::Circle { circle, boundary, tolerance }),
        ),
        (SurfacePath::Line(_), GlobalPath::Line(_)) => Ok(CurvePlan::Finished),
        (SurfacePath::Line(line), GlobalPath::Circle(_)) => match range_on_surface(
            line,
            boundary,
        ) {
            Some(range) => Ok(
                CurvePlan::Sample(SampleRequest::SweptCircle { line, surface, range, tolerance }),
            ),
            None => Err(ApproxError::OutOfRange),
        },
    }
}

/// The range that a request asks samples for.
pub open spec fn range_of(request: SampleRequest) -> CurveBoundary {
    match request {
        SampleRequest::Circle { boundary, .. } => boundary,
        SampleRequest::SweptCircle { range, .. } => range,
    }
}

/// Whether the samples answer the request: they are of the kind that it
/// asks for, and there is one point for each angle at which the range is
/// sampled.
pub open spec fn answers(samples: Samples, request: SampleRequest) -> bool {
    match (request, samples) {
        (SampleRequest::Circle { boundary, .. }, Samples::OnSurface { vertices, points }) => {
            points@.len() == sample_angles_of(boundary, vertices.value()).len()
        },
        (SampleRequest::SweptCircle { range, .. }, Samples::InSpace { vertices, points }) => {
            points@.len() == sample_angles_of(range, vertices.value()).len()
        },
        _ => false,
    }
}

/// The approximation point of a sample on a flat surface.
pub open spec fn lifted(surface: SurfaceGeom, angle: Point1, point: Point2) -> ApproxPoint {
    let p = surface.spec_point(point);
    ApproxPoint {
        local_form: angle,
        global_form: Point3 { x: p.0 as i64, y: p.1 as i64, z: p.2 as i64 },
    }
}

/// The approximation points of samples on a flat surface, if all of them
/// can be written in model coordinates.
pub open spec fn lift(surface: SurfaceGeom, angles: Seq<Point1>, points: Seq<Point2>) -> Option<
    Seq<ApproxPoint>,
> {
    if forall|i: int|
        0 <= i < points.len() ==> SurfaceGeom::all_fit(surface.spec_point(#[trigger] points[i])) {
        Some(Seq::new(points.len(), |i: int| lifted(surface, angles[i], points[i])))
    } else {
        None
    }
}

/// The approximation points of samples in model space.
pub open spec fn paired(angles: Seq<Point1>, points: Seq<Point3>) -> Seq<ApproxPoint> {
    Seq::new(points.len(), |i: int| ApproxPoint { local_form: angles[i], global_form: points[i] })
}

/// Where the points of an approximation lie on the curve.
pub open spec fn parameters(points: Seq<ApproxPoint>) -> Seq<Point1> {
    points.map_values(|p: ApproxPoint| p.local_form)
}

/// The approximation points of a line on a curved surface: each sample
/// with the parameter of the line there, rounded down. Of these, the
/// points whose parameter lies strictly inside the boundary stay.
pub open spec fn swept(
    line: Line2,
    boundary: CurveBoundary,
    angles: Seq<Point1>,
    points: Seq<Point3>,
) -> Seq<ApproxPoint> {
    paired(line_parameters(line, angles), points).filter(inside(boundary))
}

/// The approximation of a curve on a surface within a boundary, given the
/// samples that it takes.
///
/// A circle on a flat surface has its points at the angles of the vertices
/// strictly inside the boundary, in the direction of the boundary. A line
/// on a curved surface has a point for each vertex of the swept circle
/// strictly inside the range that the line reaches, at the parameter of
/// the line there, where that lies strictly inside the boundary. Either
/// way no point lies at an end of the boundary: the ends belong to the
/// vertices there.
pub open spec fn curve_approx(
    path: SurfacePath,
    surface: SurfaceGeom,
    boundary: CurveBoundary,
    tolerance: Tolerance,
    samples: Samples,
) -> Result<SegmentModel, ApproxError> {
    match plan_of(path, surface, boundary, tolerance) {
        Err(e) => Err(e),
        Ok(CurvePlan::Finished) => Ok(SegmentModel { boundary, points: Seq::empty() }),
        Ok(CurvePlan::Sample(request)) => if !answers(samples, request) {
            Err(ApproxError::WrongSamples)
        } else {
            match (request, samples) {
                (SampleRequest::Circle { .. }, Samples::OnSurface { vertices, points }) => match lift(
                    surface,
                    sample_angles_of(boundary, vertices.value()),
                    points@,
                ) {
                    Some(points) => Ok(SegmentModel { boundary, points }),
                    None => Err(ApproxError::OutOfRange),
                },
                (
                    SampleRequest::SweptCircle { line, range, .. },
                    Samples::InSpace { vertices, points },
                ) => Ok(
                    SegmentModel {
                        boundary,
                        points: swept(
                            line,
                            boundary,
                            sample_angles_of(range, vertices.value()),
                            points@,
                        ),
                    },
                ),
                _ => Err(ApproxError::WrongSamples),
            }
        },
    }
}

/// How many vertices the samples take a full circle to have.
pub open spec fn vertices_of(samples: Samples) -> int {
    match samples {
        Samples::Nothing => 0,
        Samples::OnSurface { vertices, .. } => vertices.value(),
        Samples::InSpace { vertices, .. } => vertices.value(),
    }
}

/// The points of the approximation of a circle on a flat surface lie at the
/// angles at which the boundary is sampled.
pub proof fn lemma_parameters_are_sample_angles(
    path: SurfacePath,
    surface: SurfaceGeom,
    boundary: CurveBoundary,
    tolerance: Tolerance,
    samples: Samples,
)
    requires
        curve_approx(path, surface, boundary, tolerance, samples) is Ok,
        plan_of(path, surface, boundary, tolerance) matches Ok(
            CurvePlan::Sample(SampleRequest::Circle { .. }),
        ),
    ensures
        parameters(curve_approx(path, surface, boundary, tolerance, samples)->Ok_0.points)
            == sample_angles_of(boundary, vertices_of(samples)),
{
    let points = curve_approx(path, surface, boundary, tolerance, samples)->Ok_0.points;
    let angles = sample_angles_of(boundary, vertices_of(samples));
    assert(parameters(points) =~= angles);
}

/// The parameters that lie strictly inside a boundary.
pub open spec fn parameter_inside(boundary: CurveBoundary) -> spec_fn(Point1) -> bool {
    |p: Point1| boundary.spec_contains(p)
}

/// The points of the approximation of a line on a curved surface lie at
/// the parameters at which the line reaches the sample angles, as far as
/// those lie strictly inside the boundary.
pub proof fn lemma_parameters_of_swept(
    line: Line2,
    boundary: CurveBoundary,
    angles: Seq<Point1>,
    points: Seq<Point3>,
)
    requires
        angles.len() == points.len(),
    ensures
        parameters(swept(line, boundary, angles, points)) == line_parameters(line, angles).filter(
            parameter_inside(boundary),
        ),
    decreases points.len(),
{
    reveal(Seq::filter);
    let params = line_parameters(line, angles);
    let pairs = paired(params, points);
    if points.len() == 0 {
        assert(pairs =~= Seq::<ApproxPoint>::empty());
        assert(params =~= Seq::<Point1>::empty());
        assert(parameters(pairs.filter(inside(boundary))) =~= Seq::<Point1>::empty());
    } else {
        let fewer_angles = angles.drop_last();
        let fewer_points = points.drop_last();
        lemma_parameters_of_swept(line, boundary, fewer_angles, fewer_points);
        let fewer_params = line_parameters(line, fewer_angles);
        let fewer = paired(fewer_params, fewer_points);
        let last = ApproxPoint { local_form: params.last(), global_form: points.last() };
        assert(fewer_params =~= params.drop_last());
        assert(params =~= fewer_params.push(params.last()));
        assert(pairs =~= fewer.push(last));
        fewer.lemma_filter_push(last, inside(boundary));
        fewer_params.lemma_filter_push(params.last(), parameter_inside(boundary));
        if boundary.spec_contains(params.last()) {
            assert(parameters(fewer.filter(inside(boundary)).push(last)) =~= parameters(
                fewer.filter(inside(boundary)),
            ).push(params.last()));
        }
    }
}

/// Approximating a curve within a reversed boundary, with as many vertices,
/// gives points at the same places on the curve, in opposite order.
pub proof fn lemma_reversed_boundary_reverses_parameters(
    path: SurfacePath,
    surface: SurfaceGeom,
    boundary: CurveBoundary,
    tolerance: Tolerance,
    samples: Samples,
    reverse_samples: Samples,
)
    requires
        curve_approx(path, surface, boundary, tolerance, samples) is Ok,
        curve_approx(path, surface, boundary.spec_reverse(), tolerance, reverse_samples) is Ok,
        vertices_of(samples) == vertices_of(reverse_samples),
        vertices_of(samples) > 0,
    ensures
        parameters(
            curve_approx(
                path,
                surface,
                boundary.spec_reverse(),
                tolerance,
                reverse_samples,
            )->Ok_0.points,
        ) == parameters(
            curve_approx(path, surface, boundary, tolerance, samples)->Ok_0.points,
        ).reverse(),
{
    let forward = curve_approx(path, surface, boundary, tolerance, samples)->Ok_0.points;
    let backward = curve_approx(
        path,
        surface,
        boundary.spec_reverse(),
        tolerance,
        reverse_samples,
    )->Ok_0.points;
    let n = vertices_of(samples);
    match plan_of(path, surface, boundary, tolerance) {
        Ok(CurvePlan::Sample(SampleRequest::Circle { .. })) => {
            lemma_parameters_are_sample_angles(path, surface, boundary, tolerance, samples);
            lemma_parameters_are_sample_angles(
                path,
                surface,
                boundary.spec_reverse(),
                tolerance,
                reverse_samples,
            );
            lemma_sample_angles_reverse(boundary, n);
        },
        Ok(CurvePlan::Sample(SampleRequest::SweptCircle { line, range, .. })) => {
            let angles = sample_angles_of(range, n);
            let params = line_parameters(line, angles);
            lemma_sample_angles_reverse(range, n);
            assert(line_parameters(line, angles.reverse()) =~= params.reverse());
            assert(parameter_inside(boundary.spec_reverse()) =~= parameter_inside(boundary));
            lemma_parameters_of_swept(line, boundary, angles, samples->InSpace_points@);
            lemma_parameters_of_swept(
                line,
                boundary.spec_reverse(),
                angles.reverse(),
                reverse_samples->InSpace_points@,
            );
            crate::algorithms::sequences::lemma_filter_reverse(
                params,
                parameter_inside(boundary),
            );
        },
        _ => {
            assert(forward =~= Seq::<ApproxPoint>::empty());
            assert(backward =~= Seq::<ApproxPoint>::empty());
            assert(parameters(forward).reverse() =~= parameters(backward));
        },
    }
}

/// Whether two answers give the same number of vertices and the same
/// points, the one in the opposite order of the other.
pub open spec fn is_reverse_of(reversed: Samples, samples: Samples) -> bool {
    match (reversed, samples) {
        (Samples::Nothing, Samples::Nothing) => true,
        (
            Samples::OnSurface { vertices: n, points: p },
            Samples::OnSurface { vertices: m, points: q },
        ) => n.value() == m.value() && p@ == q@.reverse(),
        (
            Samples::InSpace { vertices: n, points: p },
            Samples::InSpace { vertices: m, points: q },
        ) => n.value() == m.value() && p@ == q@.reverse(),
        _ => false,
    }
}

/// Approximating a curve within a reversed boundary, from the same points
/// in opposite order, gives the same approximation turned around: the
/// reversed boundary and the same points in opposite order. Where the one
/// fails, the other fails in the same way.
pub proof fn lemma_reversed_samples_give_the_reverse(
    path: SurfacePath,
    surface: SurfaceGeom,
    boundary: CurveBoundary,
    tolerance: Tolerance,
    samples: Samples,
    reverse_samples: Samples,
)
    requires
        is_reverse_of(reverse_samples, samples),
        samples is Nothing || vertices_of(samples) > 0,
    ensures
        curve_approx(path, surface, boundary.spec_reverse(), tolerance, reverse_samples)
            == match curve_approx(path, surface, boundary, tolerance, samples) {
            Ok(approx) => Ok(approx.reverse()),
            Err(e) => Err(e),
        },
{
    let reversed = boundary.spec_reverse();
    let n = vertices_of(samples);
    match plan_of(path, surface, boundary, tolerance) {
        Ok(CurvePlan::Sample(SampleRequest::Circle { .. })) => {
            if n > 0 {
                lemma_sample_angles_reverse(boundary, n);
            }
            match (samples, reverse_samples) {
                (
                    Samples::OnSurface { points: q, .. },
                    Samples::OnSurface { points: p, .. },
                ) => {
                    let angles = sample_angles_of(boundary, n);
                    if answers(samples, plan_of(path, surface, boundary, tolerance)->Ok_0->Sample_0) {
                        assert forall|i: int| 0 <= i < p@.len() implies q@[q@.len() - 1 - i]
                            == #[trigger] p@[i] by {}
                        assert forall|i: int| 0 <= i < q@.len() implies p@[p@.len() - 1 - i]
                            == #[trigger] q@[i] by {}
                        if lift(surface, angles, q@) is Some {
                            assert forall|i: int| 0 <= i < p@.len() implies SurfaceGeom::all_fit(
                                surface.spec_point(#[trigger] p@[i]),
                            ) by {
                                assert(SurfaceGeom::all_fit(
                                    surface.spec_point(q@[q@.len() - 1 - i]),
                                ));
                            }
                            assert(lift(surface, angles.reverse(), p@).unwrap() =~= lift(
                                surface,
                                angles,
                                q@,
                            ).unwrap().reverse());
                        } else {
                            let bad = choose|i: int|
                                0 <= i < q@.len() && !SurfaceGeom::all_fit(
                                    surface.spec_point(#[trigger] q@[i]),
                                );
                            assert(p@[p@.len() - 1 - bad] == q@[bad]);
                        }
                    }
                },
                _ => {},
            }
        },
        Ok(CurvePlan::Sample(SampleRequest::SweptCircle { line, range, .. })) => {
            if n > 0 {
                lemma_sample_angles_reverse(range, n);
            }
            match (samples, reverse_samples) {
                (Samples::InSpace { points: q, .. }, Samples::InSpace { points: p, .. }) => {
                    let angles = sample_angles_of(range, n);
                    let params = line_parameters(line, angles);
                    if angles.len() == q@.len() {
                        assert(line_parameters(line, angles.reverse()) =~= params.reverse());
                        assert(paired(params.reverse(), p@) =~= paired(params, q@).reverse());
                        assert(inside(reversed) =~= inside(boundary));
                        crate::algorithms::sequences::lemma_filter_reverse(
                            paired(params, q@),
                            inside(boundary),
                        );
                    }
                },
                _ => {},
            }
        },
        Ok(CurvePlan::Finished) => {
            assert(Seq::<ApproxPoint>::empty().reverse() =~= Seq::<ApproxPoint>::empty());
        },
        Err(_) => {},
    }
}

/// Say what approximating a curve takes.
pub fn plan_curve(
    path: &SurfacePath,
    surface: &SurfaceGeom,
    boundary: CurveBoundary,
    tolerance: Tolerance,
) -> (r: Result<CurvePlan, ApproxError>)
    ensures
        r == plan_of(*path, *surface, boundary, tolerance),
{
    match (path, surface.u) {
        (SurfacePath::Circle(_), GlobalPath::Circle(_)) => Err(ApproxError::Unsupported),
        (SurfacePath::Circle(circle), GlobalPath::Line(_)) => Ok(
            CurvePlan::Sample(SampleRequest::Circle { circle: *circle, boundary, tolerance }),
        ),
        (SurfacePath::Line(_), GlobalPath::Line(_)) => Ok(CurvePlan::Finished),
        (SurfacePath::Line(line), GlobalPath::Circle(_)) => {
            let start = checked_affine(line.origin.u, line.direction.u, boundary.start.t, 0, 0);
            let end = checked_affine(line.origin.u, line.direction.u, boundary.end.t, 0, 0);
            match (start, end) {
                (Some(start), Some(end)) => {
                    let range = CurveBoundary {
                        start: Point1 { t: start },
                        end: Point1 { t: end },
                    };
                    Ok(
                        CurvePlan::Sample(
                            SampleRequest::SweptCircle {
                                line: *line,
                                surface: *surface,
                                range,
                                tolerance,
                            },
                        ),
                    )
                },
                _ => Err(ApproxError::OutOfRange),
            }
        },
    }
}

/// Approximate a curve on a surface within a boundary, given the samples
/// that it takes.
///
/// A line on a flat surface has no points between its ends, whatever the
/// tolerance. A circle on a flat surface has its points at the angles of
/// the vertices strictly inside the boundary, mapped into model space by
/// the surface. A line on a curved surface has its points at the
/// parameters at which it reaches those angles. A circle on a curved
/// surface is not supported. No point lies at an end of the boundary or
/// outside it.
pub fn approx_curve(
    path: &SurfacePath,
    surface: &SurfaceGeom,
    boundary: CurveBoundary,
    tolerance: Tolerance,
    samples: &Samples,
) -> (r: Result<CurveApproxSegment, ApproxError>)
    ensures
        match curve_approx(*path, *surface, boundary, tolerance, *samples) {
            Ok(approx) => r.is_ok() && r.unwrap()@ == approx,
            Err(e) => r == Err::<CurveApproxSegment, ApproxError>(e),
        },
        (*path is Line && surface.spec_is_flat()) ==> r.is_ok() && r.unwrap()@ == (SegmentModel {
            boundary,
            points: Seq::empty(),
        }),
        (*path is Circle && !surface.spec_is_flat()) ==> r == Err::<
            CurveApproxSegment,
            ApproxError,
        >(ApproxError::Unsupported),
        r.is_ok() ==> r.unwrap()@.boundary == boundary && forall|k: int|
            0 <= k < r.unwrap()@.points.len() ==> boundary.spec_contains(
                (#[trigger] r.unwrap()@.points[k]).local_form,
            ),
        r.is_ok() && *path is Circle ==> parameters(r.unwrap()@.points) == sample_angles_of(
            boundary,
            vertices_of(*samples),
        ),
{
    let request = match plan_curve(path, surface, boundary, tolerance) {
        Err(e) => {
            return Err(e);
        },
        Ok(CurvePlan::Finished) => {
            return Ok(CurveApproxSegment::new(boundary, Vec::new()));
        },
        Ok(CurvePlan::Sample(request)) => request,
    };
    match (request, samples) {
        (SampleRequest::Circle { .. }, Samples::OnSurface { vertices, points }) => {
            let angles = sample_angles(boundary, *vertices);
            if angles.len() != points.len() {
                return Err(ApproxError::WrongSamples);
            }
            match lift_samples(surface, &angles, points) {
                None => Err(ApproxError::OutOfRange),
                Some(points) => {
                    let r = CurveApproxSegment::new(boundary, points);
                    proof {
                        assert(parameters(r@.points) =~= angles@);
                    }
                    Ok(r)
                },
            }
        },
        (SampleRequest::SweptCircle { line, range, .. }, Samples::InSpace { vertices, points }) => {
            let angles = sample_angles(range, *vertices);
            if angles.len() != points.len() {
                return Err(ApproxError::WrongSamples);
            }
            let params = line_parameters_of(&line, boundary, range, &angles);
            let mut kept = CurveApproxPoints::from_vec(pair_samples(&params, points));
            kept.make_subset(boundary);
            proof {
                crate::algorithms::sequences::lemma_filter_contains(
                    paired(params@, points@),
                    inside(boundary),
                );
                assert forall|k: int| 0 <= k < kept@.len() implies boundary.spec_contains(
                    (#[trigger] kept@[k]).local_form,
                ) by {
                    assert(kept@.contains(kept@[k]));
                }
            }
            Ok(CurveApproxSegment { boundary, points: kept })
        },
        _ => Err(ApproxError::WrongSamples),
    }
}

/// Put the angles and the points of samples in model space together.
fn pair_samples(angles: &Vec<Point1>, points: &Vec<Point3>) -> (r: Vec<ApproxPoint>)
    requires
        angles@.len() == points@.len(),
    ensures
        r@ == paired(angles@, points@),
{
    let mut out: Vec<ApproxPoint> = Vec::new();
    let mut i: usize = 0;
    while i < points.len()
        invariant
            i <= points.len(),
            angles@.len() == points@.len(),
            out@.len() == i,
            forall|j: int| 0 <= j < i ==> out@[j] == paired(angles@, points@)[j],
        decreases points.len() - i,
    {
        out.push(ApproxPoint::new(angles[i], points[i]));
        i += 1;
    }
    proof {
        assert(out@ =~= paired(angles@, points@));
    }
    out
}

/// Map samples on a flat surface into model space, if all of them can be
/// written there.
fn lift_samples(surface: &SurfaceGeom, angles: &Vec<Point1>, points: &Vec<Point2>) -> (r:
    Option<Vec<ApproxPoint>>)
    requires
        surface.spec_is_flat(),
        angles@.len() == points@.len(),
    ensures
        r.is_some() == lift(*surface, angles@, points@).is_some(),
        r.is_some() ==> r.unwrap()@ == lift(*surface, angles@, points@).unwrap(),
{
    let mut out: Vec<ApproxPoint> = Vec::new();
    let mut i: usize = 0;
    while i < points.len()
        invariant
            i <= points.len(),
            angles@.len() == points@.len(),
            surface.spec_is_flat(),
            out@.len() == i,
            forall|j: int|
                0 <= j < i ==> SurfaceGeom::all_fit(surface.spec_point(#[trigger] points@[j]))
                    && out@[j] == lifted(*surface, angles@[j], points@[j]),
        decreases points.len() - i,
    {
        match surface.point_from_surface_coords(points[i]) {
            None => {
                proof {
                    assert(!SurfaceGeom::all_fit(surface.spec_point(points@[i as int])));
                }
                return None;
            },
            Some(global) => {
                out.push(ApproxPoint::new(angles[i], global));
            },
        }
        i += 1;
    }
    proof {
        assert(out@ =~= lift(*surface, angles@, points@).unwrap());
    }
    Some(out)
}

/// Say which samples approximating a curve takes, if any: none where the
/// cache has the answer or the curve has no points between its ends.
pub fn sample_request(
    curve: &Handle<Curve>,
    half_edge: &HalfEdgeGeom,
    surface: &SurfaceGeom,
    tolerance: Tolerance,
    cache: &CurveApproxCache,
) -> (r: Result<Option<SampleRequest>, ApproxError>)
    ensures
        is_symmetric(cache@),
        r == if cached(cache@, curve.id(), half_edge.boundary).is_some() {
            Ok::<Option<SampleRequest>, ApproxError>(None)
        } else {
            match plan_of(half_edge.path, *surface, half_edge.boundary, tolerance) {
                Err(e) => Err(e),
                Ok(CurvePlan::Finished) => Ok(None),
                Ok(CurvePlan::Sample(request)) => Ok(Some(request)),
            }
        },
{
    match cache.get(curve, half_edge.boundary) {
        Some(_) => Ok(None),
        None => match plan_curve(&half_edge.path, surface, half_edge.boundary, tolerance) {
            Err(e) => Err(e),
            Ok(CurvePlan::Finished) => Ok(None),
            Ok(CurvePlan::Sample(request)) => Ok(Some(request)),
        },
    }
}

/// What a request for the approximation of a curve gives, and what the
/// cache holds after it.
///
/// Where the cache has an answer, that is the result and the cache stays as
/// it is. Else the approximation is computed and stored; where it cannot
/// be computed, the cache stays as it is.
pub open spec fn approx_step(
    entries: Map<CacheKey, SegmentModel>,
    curve: nat,
    half_edge: HalfEdgeGeom,
    surface: SurfaceGeom,
    tolerance: Tolerance,
    samples: Samples,
) -> (Result<SegmentModel, ApproxError>, Map<CacheKey, SegmentModel>) {
    match cached(entries, curve, half_edge.boundary) {
        Some(approx) => (Ok(approx), entries),
        None => match curve_approx(
            half_edge.path,
            surface,
            half_edge.boundary,
            tolerance,
            samples,
        ) {
            Err(e) => (Err(e), entries),
            Ok(approx) => (Ok(approx), entries.insert((curve, half_edge.boundary), approx)),
        },
    }
}

/// Approximate the curve of a half-edge within the half-edge's boundary.
///
/// The cache is asked first, for the boundary and for its reverse. Only
/// where it has no answer is the approximation computed, from the samples,
/// and stored in the cache. Either way the cache then answers the same
/// request with the result.
pub fn approx_with_cache(
    curve: &Handle<Curve>,
    half_edge: &HalfEdgeGeom,
    surface: &SurfaceGeom,
    tolerance: Tolerance,
    samples: &Samples,
    cache: &mut CurveApproxCache,
) -> (r: Result<CurveApproxSegment, ApproxError>)
    ensures
        final(cache)@ == approx_step(
            old(cache)@,
            curve.id(),
            *half_edge,
            *surface,
            tolerance,
            *samples,
        ).1,
        match approx_step(
            old(cache)@,
            curve.id(),
            *half_edge,
            *surface,
            tolerance,
            *samples,
        ).0 {
            Ok(approx) => r.is_ok() && r.unwrap()@ == approx,
            Err(e) => r == Err::<CurveApproxSegment, ApproxError>(e),
        },
        r.is_ok() ==> cached(final(cache)@, curve.id(), half_edge.boundary) == Some(r.unwrap()@),
        is_symmetric(old(cache)@),
        is_symmetric(final(cache)@),
{
    match cache.get(curve, half_edge.boundary) {
        Some(approx) => Ok(approx),
        None => {
            match approx_curve(&half_edge.path, surface, half_edge.boundary, tolerance, samples) {
                Err(e) => Err(e),
                Ok(approx) => Ok(cache.insert(curve.clone(), half_edge.boundary, approx)),
            }
        },
    }
}

/// Whether the samples answer the request: they are of the kind that it
/// asks for, and there is one point for each angle at which the range is
/// sampled.
pub fn samples_answer(samples: &Samples, request: &SampleRequest) -> (b: bool)
    ensures
        b == answers(*samples, *request),
{
    match (request, samples) {
        (SampleRequest::Circle { boundary, .. }, Samples::OnSurface { vertices, points }) => {
            sample_angles(*boundary, *vertices).len() == points.len()
        },
        (SampleRequest::SweptCircle { range, .. }, Samples::InSpace { vertices, points }) => {
            sample_angles(*range, *vertices).len() == points.len()
        },
        _ => false,
    }
}

/// A request that was answered is answered the same way when it is made
/// again with the same cache, whatever samples come with it: nothing is
/// computed again, and the cache stays as it is.
pub proof fn lemma_repeated_request(
    entries: Map<CacheKey, SegmentModel>,
    curve: nat,
    half_edge: HalfEdgeGeom,
    surface: SurfaceGeom,
    tolerance: Tolerance,
    samples: Samples,
    other_samples: Samples,
)
    requires
        approx_step(entries, curve, half_edge, surface, tolerance, samples).0 is Ok,
    ensures
        approx_step(
            approx_step(entries, curve, half_edge, surface, tolerance, samples).1,
            curve,
            half_edge,
            surface,
            tolerance,
            other_samples,
        ) == approx_step(entries, curve, half_edge, surface, tolerance, samples),
{
}

/// A request leaves a symmetric cache symmetric.
pub proof fn lemma_request_keeps_symmetry(
    entries: Map<CacheKey, SegmentModel>,
    curve: nat,
    half_edge: HalfEdgeGeom,
    surface: SurfaceGeom,
    tolerance: Tolerance,
    samples: Samples,
)
    requires
        is_symmetric(entries),
    ensures
        is_symmetric(approx_step(entries, curve, half_edge, surface, tolerance, samples).1),
{
    let step = approx_step(entries, curve, half_edge, surface, tolerance, samples);
    if step.1 != entries {
        lemma_insert_keeps_symmetry(entries, curve, half_edge.boundary, step.0->Ok_0);
    }
}

/// After a request was answered, the request for the same curve within the
/// reversed boundary is answered with the reverse, from the cache alone.
///
/// This holds of a symmetric cache and of a boundary whose two ends
/// differ.
pub proof fn lemma_reversed_request(
    entries: Map<CacheKey, SegmentModel>,
    curve: nat,
    half_edge: HalfEdgeGeom,
    surface: SurfaceGeom,
    tolerance: Tolerance,
    samples: Samples,
    other_samples: Samples,
)
    requires
        is_symmetric(entries),
        half_edge.boundary.start != half_edge.boundary.end,
        approx_step(entries, curve, half_edge, surface, tolerance, samples).0 is Ok,
    ensures
        ({
            let first = approx_step(entries, curve, half_edge, surface, tolerance, samples);
            let reversed = HalfEdgeGeom {
                path: half_edge.path,
                boundary: half_edge.boundary.spec_reverse(),
            };
            approx_step(first.1, curve, reversed, surface, tolerance, other_samples) == (
                Ok::<SegmentModel, ApproxError>(first.0->Ok_0.reverse()),
                first.1,
            )
        }),
{
    let first = approx_step(entries, curve, half_edge, surface, tolerance, samples);
    lemma_request_keeps_symmetry(entries, curve, half_edge, surface, tolerance, samples);
    lemma_repeated_request(entries, curve, half_edge, surface, tolerance, samples, samples);
    lemma_reverse_symmetry(first.1, curve, half_edge.boundary);
}

} // verus!
