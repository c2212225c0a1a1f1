use fj_core::algorithms::approx::cache::CurveApproxCache;
use fj_core::algorithms::approx::engine::{
    approx_curve, approx_with_cache, plan_curve, sample_request, samples_answer, ApproxError,
    CurvePlan, SampleRequest, Samples,
};
use fj_core::algorithms::approx::sampling::VertexCount;
use fj_core::algorithms::approx::points::ApproxPoint;
use fj_core::algorithms::approx::segment::CurveApproxSegment;
use fj_core::algorithms::approx::tolerance::{InvalidTolerance, Tolerance};
use fj_core::geometry::boundary::CurveBoundary;
use fj_core::geometry::path::{GlobalPath, Line2, SurfacePath, FULL_TURN};
use fj_core::geometry::surfaces::{Surface, SurfaceGeom};
use fj_core::geometry::table::HalfEdgeGeom;
use fj_core::math::{Point1, Point2, Point3, Vector2, Vector3};
use fj_core::storage::{Handle, Store};
use fj_core::topology::edge::Curve;

fn boundary(start: i64, end: i64) -> CurveBoundary {
    CurveBoundary::new(Point1::new(start), Point1::new(end))
}

fn tolerance() -> Tolerance {
    Tolerance::from_scalar(1).unwrap()
}

fn curved_surface() -> SurfaceGeom {
    SurfaceGeom { u: GlobalPath::circle_from_radius(1), v: Vector3 { x: 0, y: 0, z: 1 } }
}

fn new_curve(curves: &mut Store<Curve>) -> Handle<Curve> {
    curves.insert(Curve {})
}

fn approx_point(t: i64, x: i64, y: i64, z: i64) -> ApproxPoint {
    ApproxPoint::new(Point1::new(t), Point3::new(x, y, z))
}

#[test]
fn approx_line_on_flat_surface() {
    let mut curves = Store::new();
    let mut cache = CurveApproxCache::new();

    let surface = Surface::xz_plane().geometry();
    let (path, boundary) =
        SurfacePath::line_from_points(Point2::new(1, 1), Point2::new(2, 1)).unwrap();
    let curve = new_curve(&mut curves);
    let half_edge = HalfEdgeGeom { path, boundary };

    let request = sample_request(&curve, &half_edge, &surface, tolerance(), &cache);
    assert_eq!(request, Ok(None));
    let approx = approx_with_cache(
        &curve,
        &half_edge,
        &surface,
        tolerance(),
        &Samples::Nothing,
        &mut cache,
    )
    .unwrap();

    assert_eq!(approx.points.inner, vec![]);
    assert_eq!(approx.boundary, boundary);
}

#[test]
fn approx_line_on_curved_surface_but_not_along_curve() {
    let mut curves = Store::new();
    let mut cache = CurveApproxCache::new();

    let surface = curved_surface();
    let (path, boundary) =
        SurfacePath::line_from_points(Point2::new(1, 1), Point2::new(2, 1)).unwrap();
    let curve = new_curve(&mut curves);
    let half_edge = HalfEdgeGeom { path, boundary };

    let request = sample_request(&curve, &half_edge, &surface, tolerance(), &cache).unwrap();
    let line = Line2 { origin: Point2::new(1, 1), direction: Vector2 { u: 1, v: 0 } };
    assert_eq!(
        request,
        Some(SampleRequest::SweptCircle {
            line,
            surface,
            range: CurveBoundary::new(Point1::new(1), Point1::new(2)),
            tolerance: tolerance(),
        })
    );
    // No vertex of the swept circle lies strictly between 1 and 2.
    let samples = Samples::InSpace { vertices: VertexCount::new(3), points: vec![] };
    assert!(samples_answer(&samples, &request.unwrap()));
    let approx =
        approx_with_cache(&curve, &half_edge, &surface, tolerance(), &samples, &mut cache)
            .unwrap();

    assert_eq!(approx.points.inner, vec![]);
}

#[test]
fn approx_line_on_curved_surface_along_curve() {
    let mut curves = Store::new();
    let mut cache = CurveApproxCache::new();

    let surface = curved_surface();
    let path = SurfacePath::Line(Line2 {
        origin: Point2::new(0, 1),
        direction: Vector2 { u: 1, v: 0 },
    });
    let curve = new_curve(&mut curves);
    let boundary = boundary(0, FULL_TURN);
    let half_edge = HalfEdgeGeom { path, boundary };

    let request = sample_request(&curve, &half_edge, &surface, tolerance(), &cache).unwrap();
    assert!(matches!(
        request,
        Some(SampleRequest::SweptCircle { range, .. }) if range == boundary
    ));
    let sampled = vec![approx_point(1_431_655_765, -1, 1, 1), approx_point(2_863_311_530, -1, -1, 1)];
    let samples = Samples::InSpace {
        vertices: VertexCount::new(3),
        points: sampled.iter().map(|point| point.global_form).collect(),
    };
    assert!(samples_answer(&samples, &request.unwrap()));
    let approx =
        approx_with_cache(&curve, &half_edge, &surface, tolerance(), &samples, &mut cache)
            .unwrap();

    assert_eq!(approx.points.inner, sampled);
    assert_eq!(approx.boundary, boundary);
}

#[test]
fn approx_circle_on_flat_surface() {
    let mut curves = Store::new();
    let mut cache = CurveApproxCache::new();

    let surface = Surface::xz_plane().geometry();
    let path = SurfacePath::circle_from_center_and_radius(Point2::new(0, 0), 1);
    let curve = new_curve(&mut curves);
    let boundary = boundary(0, FULL_TURN);
    let half_edge = HalfEdgeGeom { path, boundary };

    let request = sample_request(&curve, &half_edge, &surface, tolerance(), &cache).unwrap();
    assert!(matches!(
        request,
        Some(SampleRequest::Circle { boundary: asked, .. }) if asked == boundary
    ));
    // At this tolerance three vertices approximate the circle; the points
    // are those of the circle at a third and at two thirds of a turn, to the
    // nearest coordinates.
    let samples = Samples::OnSurface {
        vertices: VertexCount::new(3),
        points: vec![Point2::new(-1, 1), Point2::new(-1, -1)],
    };
    assert!(samples_answer(&samples, &request.unwrap()));
    let approx =
        approx_with_cache(&curve, &half_edge, &surface, tolerance(), &samples, &mut cache)
            .unwrap();

    let expected_approx =
        vec![approx_point(1_431_655_765, -1, 0, 1), approx_point(2_863_311_530, -1, 0, -1)];
    assert_eq!(approx.points.inner, expected_approx);
}

#[test]
fn approx_circle_on_curved_surface_is_unsupported() {
    let mut curves = Store::new();
    let mut cache = CurveApproxCache::new();
    let surface = curved_surface();
    let path = SurfacePath::circle_from_center_and_radius(Point2::new(0, 0), 1);
    let curve = new_curve(&mut curves);
    let half_edge = HalfEdgeGeom { path, boundary: boundary(0, FULL_TURN) };

    assert_eq!(
        sample_request(&curve, &half_edge, &surface, tolerance(), &cache),
        Err(ApproxError::Unsupported)
    );
    assert_eq!(
        approx_with_cache(
            &curve,
            &half_edge,
            &surface,
            tolerance(),
            &Samples::Nothing,
            &mut cache
        ),
        Err(ApproxError::Unsupported)
    );
    assert_eq!(cache.len(), 0);
    assert_eq!(
        plan_curve(&path, &surface, boundary(0, FULL_TURN), tolerance()),
        Err(ApproxError::Unsupported)
    );
}

#[test]
fn line_on_flat_surface_has_no_points_at_any_tolerance() {
    let surface = Surface::xz_plane().geometry();
    for (a, b) in [((1, 1), (2, 1)), ((-5, 7), (100, -3)), ((0, 0), (0, 9))] {
        let (path, boundary) =
            SurfacePath::line_from_points(Point2::new(a.0, a.1), Point2::new(b.0, b.1)).unwrap();
        for t in [1, 10, 1_000_000] {
            let tolerance = Tolerance::from_scalar(t).unwrap();
            assert_eq!(plan_curve(&path, &surface, boundary, tolerance), Ok(CurvePlan::Finished));
            let approx =
                approx_curve(&path, &surface, boundary, tolerance, &Samples::Nothing).unwrap();
            assert_eq!(approx, CurveApproxSegment::new(boundary, vec![]));
        }
    }
}

#[test]
fn out_of_range_is_reported() {
    let curved = curved_surface();
    let path = SurfacePath::Line(Line2 {
        origin: Point2::new(i64::MAX, 0),
        direction: Vector2 { u: 1, v: 0 },
    });
    assert_eq!(
        plan_curve(&path, &curved, boundary(0, 1), tolerance()),
        Err(ApproxError::OutOfRange)
    );

    let flat = SurfaceGeom {
        u: GlobalPath::x_axis(),
        v: Vector3 { x: 0, y: i64::MAX, z: 0 },
    };
    let circle = SurfacePath::circle_from_center_and_radius(Point2::new(0, 0), 1);
    let samples = Samples::OnSurface {
        vertices: VertexCount::new(3),
        points: vec![Point2::new(1, 1), Point2::new(0, 2)],
    };
    assert_eq!(
        approx_curve(&circle, &flat, boundary(0, FULL_TURN), tolerance(), &samples),
        Err(ApproxError::OutOfRange)
    );
}

fn half_circle_samples() -> Samples {
    Samples::OnSurface {
        vertices: VertexCount::new(4),
        points: vec![Point2::new(0, 2), Point2::new(-2, 0)],
    }
}

#[test]
fn second_request_is_answered_from_the_cache() {
    let mut curves = Store::new();
    let mut cache = CurveApproxCache::new();
    let surface = Surface::xy_plane().geometry();
    let path = SurfacePath::circle_from_center_and_radius(Point2::new(0, 0), 2);
    let curve = new_curve(&mut curves);
    let quarter = FULL_TURN / 4;
    let half_edge = HalfEdgeGeom { path, boundary: boundary(0, 3 * quarter) };

    let first = approx_with_cache(
        &curve,
        &half_edge,
        &surface,
        tolerance(),
        &half_circle_samples(),
        &mut cache,
    )
    .unwrap();
    assert_eq!(cache.len(), 1);
    // Nothing has to be sampled again, and other samples are not looked at.
    assert_eq!(sample_request(&curve, &half_edge, &surface, tolerance(), &cache), Ok(None));
    let second = approx_with_cache(
        &curve,
        &half_edge,
        &surface,
        tolerance(),
        &Samples::Nothing,
        &mut cache,
    )
    .unwrap();
    assert_eq!(first, second);
    assert_eq!(
        first.points.inner,
        vec![approx_point(quarter, 0, 2, 0), approx_point(2 * quarter, -2, 0, 0)]
    );
    assert_eq!(cache.len(), 1);

    let other = new_curve(&mut curves);
    assert!(sample_request(&other, &half_edge, &surface, tolerance(), &cache)
        .unwrap()
        .is_some());
}

#[test]
fn reversed_request_is_answered_with_the_reverse() {
    let mut curves = Store::new();
    let mut cache = CurveApproxCache::new();
    let surface = Surface::xy_plane().geometry();
    let path = SurfacePath::circle_from_center_and_radius(Point2::new(0, 0), 2);
    let curve = new_curve(&mut curves);
    let quarter = FULL_TURN / 4;
    let half_edge = HalfEdgeGeom { path, boundary: boundary(0, 3 * quarter) };
    let reversed = HalfEdgeGeom { path, boundary: boundary(3 * quarter, 0) };

    let forward = approx_with_cache(
        &curve,
        &half_edge,
        &surface,
        tolerance(),
        &half_circle_samples(),
        &mut cache,
    )
    .unwrap();
    let backward = approx_with_cache(
        &curve,
        &reversed,
        &surface,
        tolerance(),
        &Samples::Nothing,
        &mut cache,
    )
    .unwrap();
    let mut expected = forward.clone();
    expected.reverse();
    assert_eq!(backward, expected);
    assert_eq!(backward.boundary, boundary(3 * quarter, 0));
    assert_eq!(
        backward.points.inner,
        vec![approx_point(2 * quarter, -2, 0, 0), approx_point(quarter, 0, 2, 0)]
    );
    assert_eq!(cache.len(), 1);
}

#[test]
fn reversed_boundary_is_sampled_at_the_same_angles() {
    let surface = Surface::xy_plane().geometry();
    let path = SurfacePath::circle_from_center_and_radius(Point2::new(0, 0), 2);
    let quarter = FULL_TURN / 4;
    let forward = approx_curve(
        &path,
        &surface,
        boundary(0, 3 * quarter),
        tolerance(),
        &half_circle_samples(),
    )
    .unwrap();
    let turned = Samples::OnSurface {
        vertices: VertexCount::new(4),
        points: vec![Point2::new(-2, 0), Point2::new(0, 2)],
    };
    let mut backward =
        approx_curve(&path, &surface, boundary(3 * quarter, 0), tolerance(), &turned).unwrap();
    backward.reverse();
    assert_eq!(backward, forward);
}

#[test]
fn cache_answers_for_a_boundary_and_for_its_reverse() {
    let mut curves = Store::new();
    let a = new_curve(&mut curves);
    let b = new_curve(&mut curves);
    let mut cache = CurveApproxCache::default();
    let quarter = FULL_TURN / 4;
    let piece = boundary(0, 3 * quarter);
    assert_eq!(cache.get(&a, piece), None);

    let surface = Surface::xy_plane().geometry();
    let path = SurfacePath::circle_from_center_and_radius(Point2::new(0, 0), 2);
    let half_edge = HalfEdgeGeom { path, boundary: piece };
    let first = approx_with_cache(
        &a,
        &half_edge,
        &surface,
        tolerance(),
        &half_circle_samples(),
        &mut cache,
    )
    .unwrap();
    assert_eq!(cache.get(&a, piece), Some(first.clone()));
    assert_eq!(cache.get(&b, piece), None);
    assert_eq!(cache.get(&a, boundary(0, quarter)), None);

    let mut turned = first.clone();
    turned.reverse();
    assert_eq!(cache.get(&a, piece.reverse()), Some(turned));
    assert_eq!(cache.len(), 1);

    // What the cache holds is not computed again, whatever the samples.
    let other = Samples::OnSurface {
        vertices: VertexCount::new(4),
        points: vec![Point2::new(7, 7), Point2::new(8, 8)],
    };
    let again = approx_with_cache(&a, &half_edge, &surface, tolerance(), &other, &mut cache);
    assert_eq!(again, Ok(first.clone()));
    assert_eq!(cache.len(), 1);

    let second =
        approx_with_cache(&b, &half_edge, &surface, tolerance(), &other, &mut cache).unwrap();
    assert_eq!(cache.len(), 2);
    assert_eq!(cache.get(&b, piece), Some(second));
    assert_eq!(cache.get(&a, piece), Some(first));
}

#[test]
fn tolerance_must_be_positive() {
    assert_eq!(Tolerance::from_scalar(3).unwrap().inner(), 3);
    assert_eq!(Tolerance::from_scalar(0), Err(InvalidTolerance { value: 0 }));
    assert_eq!(Tolerance::from_scalar(-2), Err(InvalidTolerance { value: -2 }));
}

#[test]
fn samples_answer_a_request_with_one_point_for_each_angle() {
    let circle = SampleRequest::Circle {
        circle: fj_core::geometry::path::Circle2::from_center_and_radius(Point2::new(0, 0), 2),
        boundary: boundary(0, FULL_TURN),
        tolerance: tolerance(),
    };
    let on_surface = |count: u32, points: usize| Samples::OnSurface {
        vertices: VertexCount::new(count),
        points: vec![Point2::new(0, 0); points],
    };
    let in_space = |count: u32, points: usize| Samples::InSpace {
        vertices: VertexCount::new(count),
        points: vec![Point3::new(0, 0, 0); points],
    };
    assert!(samples_answer(&on_surface(4, 3), &circle));
    assert!(samples_answer(&on_surface(8, 7), &circle));
    assert!(!samples_answer(&on_surface(4, 2), &circle));
    assert!(!samples_answer(&on_surface(4, 4), &circle));
    assert!(!samples_answer(&in_space(4, 3), &circle));
    assert!(!samples_answer(&Samples::Nothing, &circle));

    let swept = SampleRequest::SweptCircle {
        line: Line2 { origin: Point2::new(0, 0), direction: Vector2 { u: 1, v: 0 } },
        surface: curved_surface(),
        range: boundary(FULL_TURN, FULL_TURN / 2),
        tolerance: tolerance(),
    };
    assert!(samples_answer(&in_space(4, 1), &swept));
    assert!(!samples_answer(&in_space(4, 0), &swept));
    assert!(!samples_answer(&on_surface(4, 1), &swept));
}

#[test]
fn line_on_curved_surface_has_its_points_at_its_own_parameters() {
    let line = SurfacePath::Line(Line2 {
        origin: Point2::new(0, 0),
        direction: Vector2 { u: 2, v: 0 },
    });
    let half = FULL_TURN / 2;
    let samples = Samples::InSpace {
        vertices: VertexCount::new(3),
        points: vec![Point3::new(1, 1, 1), Point3::new(2, 2, 2)],
    };
    // The line reaches the angles 1431655765 and 2863311530 at half of them.
    let approx =
        approx_curve(&line, &curved_surface(), boundary(0, half), tolerance(), &samples).unwrap();
    assert_eq!(
        approx.points.inner,
        vec![approx_point(715_827_882, 1, 1, 1), approx_point(1_431_655_765, 2, 2, 2)]
    );
    assert!(approx.points.inner.iter().all(|p| 0 < p.local_form.t && p.local_form.t < half));

    let backward =
        approx_curve(&line, &curved_surface(), boundary(half, 0), tolerance(), &samples).unwrap();
    assert_eq!(
        backward.points.inner,
        vec![approx_point(1_431_655_765, 1, 1, 1), approx_point(715_827_882, 2, 2, 2)]
    );

    let falling = SurfacePath::Line(Line2 {
        origin: Point2::new(FULL_TURN, 0),
        direction: Vector2 { u: -2, v: 0 },
    });
    // Along this line the angles fall, from the last vertex to the first.
    let approx =
        approx_curve(&falling, &curved_surface(), boundary(0, half), tolerance(), &samples)
            .unwrap();
    assert_eq!(
        approx.points.inner,
        vec![approx_point(715_827_883, 1, 1, 1), approx_point(1_431_655_765, 2, 2, 2)]
    );
}

#[test]
fn points_at_the_ends_of_the_boundary_are_left_out() {
    // The line reaches the one vertex inside its range between its
    // parameters 0 and 1, which rounds down to the start of the boundary.
    let steep = SurfacePath::Line(Line2 {
        origin: Point2::new(1, 0),
        direction: Vector2 { u: FULL_TURN, v: 0 },
    });
    let samples = Samples::InSpace {
        vertices: VertexCount::new(3),
        points: vec![Point3::new(1, 1, 1), Point3::new(2, 2, 2), Point3::new(3, 3, 3)],
    };
    let approx =
        approx_curve(&steep, &curved_surface(), boundary(0, 1), tolerance(), &samples).unwrap();
    assert_eq!(approx.points.inner, vec![]);
}

#[test]
fn samples_that_do_not_answer_are_refused() {
    let surface = Surface::xy_plane().geometry();
    let circle = SurfacePath::circle_from_center_and_radius(Point2::new(0, 0), 2);
    let turn = boundary(0, FULL_TURN);
    let points = |n: usize| Samples::OnSurface {
        vertices: VertexCount::new(4),
        points: vec![Point2::new(0, 0); n],
    };
    assert_eq!(
        approx_curve(&circle, &surface, turn, tolerance(), &Samples::Nothing),
        Err(ApproxError::WrongSamples)
    );
    assert_eq!(
        approx_curve(&circle, &surface, turn, tolerance(), &points(2)),
        Err(ApproxError::WrongSamples)
    );
    assert_eq!(
        approx_curve(
            &circle,
            &surface,
            turn,
            tolerance(),
            &Samples::InSpace { vertices: VertexCount::new(4), points: vec![Point3::new(0, 0, 0); 3] }
        ),
        Err(ApproxError::WrongSamples)
    );
    assert!(approx_curve(&circle, &surface, turn, tolerance(), &points(3)).is_ok());

    let mut curves = Store::new();
    let curve = new_curve(&mut curves);
    let mut cache = CurveApproxCache::new();
    let half_edge = HalfEdgeGeom { path: circle, boundary: turn };
    assert_eq!(
        approx_with_cache(&curve, &half_edge, &surface, tolerance(), &points(5), &mut cache),
        Err(ApproxError::WrongSamples)
    );
    assert_eq!(cache.len(), 0);
}
