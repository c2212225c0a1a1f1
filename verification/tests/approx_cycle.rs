use fj_core::algorithms::approx::cache::CurveApproxCache;
use fj_core::algorithms::approx::cycle::{approx_half_edges, plan_half_edges};
use fj_core::algorithms::approx::engine::{ApproxError, CurvePlan, SampleRequest, Samples};
use fj_core::algorithms::approx::sampling::VertexCount;
use fj_core::algorithms::approx::points::ApproxPoint;
use fj_core::algorithms::approx::segment::CurveApproxSegment;
use fj_core::algorithms::approx::tolerance::Tolerance;
use fj_core::geometry::boundary::CurveBoundary;
use fj_core::geometry::path::{GlobalPath, FULL_TURN};
use fj_core::geometry::surfaces::{Surface, SurfaceGeom};
use fj_core::math::{Point1, Point2, Point3, Vector3};
use fj_core::operations::builder::BuildCycle;
use fj_core::operations::update::UpdateHalfEdge;
use fj_core::topology::cycle::Cycle;
use fj_core::topology::edge::HalfEdge;
use fj_core::topology::objects::Objects;

fn tolerance() -> Tolerance {
    Tolerance::from_scalar(1).unwrap()
}

fn full_turn() -> CurveBoundary {
    CurveBoundary::new(Point1::new(0), Point1::new(FULL_TURN))
}

fn circle_samples(points: &[(i64, i64)]) -> Samples {
    Samples::OnSurface {
        vertices: VertexCount::new(3),
        points: points.iter().map(|p| Point2::new(p.0, p.1)).collect(),
    }
}

#[test]
fn polygon_needs_no_samples() {
    let mut objects = Objects::new();
    let surface = Surface::xy_plane().geometry();
    let corners = vec![Point2::new(0, 0), Point2::new(3, 0), Point2::new(0, 3)];
    let cycle = Cycle::polygon(corners, &mut objects).unwrap();
    assert_eq!(
        plan_half_edges(cycle.half_edges(), &surface, tolerance()),
        Ok(vec![CurvePlan::Finished, CurvePlan::Finished, CurvePlan::Finished])
    );
    let mut cache = CurveApproxCache::new();
    let samples = vec![Samples::Nothing, Samples::Nothing, Samples::Nothing];
    let approx = cycle.approx_with_cache(&surface, tolerance(), &samples, &mut cache).unwrap();
    let unit = CurveBoundary::new(Point1::new(0), Point1::new(1));
    assert_eq!(
        approx,
        vec![
            CurveApproxSegment::new(unit, vec![]),
            CurveApproxSegment::new(unit, vec![]),
            CurveApproxSegment::new(unit, vec![]),
        ]
    );
    assert_eq!(cache.len(), 3);
}

#[test]
fn half_edges_on_one_curve_are_approximated_once() {
    let mut objects = Objects::new();
    let surface = Surface::xy_plane().geometry();
    let circle = HalfEdge::circle(Point2::new(0, 0), 2, &mut objects);
    let other_side = circle.replace_boundary(circle.boundary().reverse());
    let edges = vec![circle.clone(), other_side, circle];

    let plans = plan_half_edges(&edges, &surface, tolerance()).unwrap();
    assert!(matches!(
        plans[0],
        CurvePlan::Sample(SampleRequest::Circle { boundary, .. }) if boundary == full_turn()
    ));

    let mut cache = CurveApproxCache::new();
    // Only the first half-edge is sampled: the others are answered from the
    // cache, whatever samples come with them.
    let samples = vec![circle_samples(&[(-1, 2), (-1, -2)]), Samples::Nothing];
    let approx = approx_half_edges(&edges, &surface, tolerance(), &samples, &mut cache).unwrap();
    let first = ApproxPoint::new(Point1::new(1_431_655_765), Point3::new(-1, 2, 0));
    let second = ApproxPoint::new(Point1::new(2_863_311_530), Point3::new(-1, -2, 0));
    assert_eq!(
        approx,
        vec![
            CurveApproxSegment::new(full_turn(), vec![first, second]),
            CurveApproxSegment::new(full_turn().reverse(), vec![second, first]),
            CurveApproxSegment::new(full_turn(), vec![first, second]),
        ]
    );
    assert_eq!(cache.len(), 1);
}

#[test]
fn first_unsupported_half_edge_ends_the_request() {
    let mut objects = Objects::new();
    let curved =
        SurfaceGeom { u: GlobalPath::circle_from_radius(1), v: Vector3 { x: 0, y: 0, z: 1 } };
    let line =
        HalfEdge::line_segment(Point2::new(0, 0), Point2::new(FULL_TURN, 0), &mut objects).unwrap();
    let circle = HalfEdge::circle(Point2::new(0, 0), 2, &mut objects);
    let last = HalfEdge::line_segment(Point2::new(0, 0), Point2::new(0, 5), &mut objects).unwrap();
    let edges = vec![line, circle, last];

    assert_eq!(plan_half_edges(&edges, &curved, tolerance()), Err(ApproxError::Unsupported));

    let mut cache = CurveApproxCache::new();
    let in_space = |points: Vec<Point3>| Samples::InSpace { vertices: VertexCount::new(3), points };
    let samples = vec![
        in_space(vec![Point3::new(1, 1, 0), Point3::new(1, -1, 0)]),
        Samples::Nothing,
        in_space(vec![]),
    ];
    assert_eq!(
        approx_half_edges(&edges, &curved, tolerance(), &samples, &mut cache),
        Err(ApproxError::Unsupported)
    );
    // The half-edge before the failure was approximated, the one behind it
    // was not.
    assert_eq!(cache.len(), 1);
    assert!(cache.get(edges[0].curve(), edges[0].boundary()).is_some());
    assert!(cache.get(edges[2].curve(), edges[2].boundary()).is_none());

    assert_eq!(plan_half_edges(&vec![], &curved, tolerance()), Ok(vec![]));
    assert_eq!(
        approx_half_edges(&vec![], &curved, tolerance(), &vec![], &mut cache),
        Ok(vec![])
    );
}

#[test]
fn face_is_approximated_cycle_by_cycle() {
    let mut objects = Objects::new();
    let mut geometry = fj_core::geometry::table::Geometry::new();
    let surface = objects.surfaces.insert(Surface::xy_plane());
    assert!(geometry.define_surface(&surface, Surface::xy_plane().geometry()));

    let corners = vec![Point2::new(-9, -9), Point2::new(9, -9), Point2::new(0, 9)];
    let exterior = Cycle::polygon(corners, &mut objects).unwrap();
    let hole = Cycle::circle(Point2::new(0, 0), 2, &mut objects);
    let face = fj_core::topology::face::Face::new(surface, exterior, vec![hole], None);

    let samples = vec![
        vec![Samples::Nothing, Samples::Nothing, Samples::Nothing],
        vec![circle_samples(&[(-1, 2), (-1, -2)])],
    ];
    let mut cache = CurveApproxCache::new();
    let approx = face.approx_with_cache(tolerance(), &samples, &geometry, &mut cache).unwrap();
    let unit = CurveBoundary::new(Point1::new(0), Point1::new(1));
    let side = CurveApproxSegment::new(unit, vec![]);
    assert_eq!(
        approx,
        vec![
            vec![side.clone(), side.clone(), side],
            vec![CurveApproxSegment::new(
                full_turn(),
                vec![
                    ApproxPoint::new(Point1::new(1_431_655_765), Point3::new(-1, 2, 0)),
                    ApproxPoint::new(Point1::new(2_863_311_530), Point3::new(-1, -2, 0)),
                ]
            )],
        ]
    );
    assert_eq!(cache.len(), 4);
}

#[test]
fn one_bad_half_edge_ends_the_approximation_of_a_face() {
    let mut objects = Objects::new();
    let mut geometry = fj_core::geometry::table::Geometry::new();
    let surface = objects.surfaces.insert(Surface::xy_plane());
    let curved =
        SurfaceGeom { u: GlobalPath::circle_from_radius(1), v: Vector3 { x: 0, y: 0, z: 1 } };
    assert!(geometry.define_surface(&surface, curved));

    let exterior = Cycle::new(vec![
        HalfEdge::line_segment(Point2::new(0, 0), Point2::new(1, 0), &mut objects).unwrap(),
    ]);
    let hole = Cycle::circle(Point2::new(0, 0), 2, &mut objects);
    let other = Cycle::new(vec![
        HalfEdge::line_segment(Point2::new(5, 0), Point2::new(6, 0), &mut objects).unwrap(),
    ]);
    let face = fj_core::topology::face::Face::new(surface, exterior, vec![hole, other], None);

    let no_vertex = Samples::InSpace { vertices: VertexCount::new(3), points: vec![] };
    let samples = vec![vec![no_vertex.clone()], vec![Samples::Nothing], vec![no_vertex]];
    let mut cache = CurveApproxCache::new();
    assert_eq!(
        face.approx_with_cache(tolerance(), &samples, &geometry, &mut cache),
        Err(ApproxError::Unsupported)
    );
    assert_eq!(cache.len(), 1);
}
