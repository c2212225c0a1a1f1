use fj_core::geometry::boundary::CurveBoundary;
use fj_core::geometry::path::{Line2, SurfacePath};
use fj_core::geometry::surfaces::Surface;
use fj_core::math::{Point1, Point2, Vector2, Winding};
use fj_core::operations::builder::{BuildCycle, CycleBuilder};
use fj_core::topology::cycle::Cycle;
use fj_core::topology::edge::HalfEdge;
use fj_core::topology::face::Face;
use fj_core::topology::objects::Objects;
use fj_core::validation::error::{CycleValidationError, FaceValidationError, ValidationError};

fn polygon(points: &[(i64, i64)], objects: &mut Objects) -> Cycle {
    let points = points.iter().map(|p| Point2::new(p.0, p.1)).collect();
    Cycle::empty().update_as_polygon_from_points(points, objects).unwrap()
}

#[test]
fn face_invalid_interior_winding() {
    let mut objects = Objects::new();

    let valid = {
        let surface = objects.surfaces.insert(Surface::xy_plane());
        let exterior = polygon(&[(0, 0), (3, 0), (0, 3)], &mut objects);
        let interior = polygon(&[(1, 1), (1, 2), (2, 1)], &mut objects);
        Face::new(surface, exterior, vec![interior], None)
    };
    let invalid = {
        let interiors = valid.interiors().iter().map(|cycle| cycle.reverse()).collect::<Vec<_>>();

        Face::new(valid.surface().clone(), valid.exterior().clone(), interiors, valid.color())
    };

    assert_eq!(valid.validate_and_return_first_error(), Ok(()));
    assert!(matches!(
        invalid.validate_and_return_first_error(),
        Err(ValidationError::Face(FaceValidationError::InvalidInteriorWinding { .. }))
    ));
}

#[test]
fn invalid_interior_winding_is_reported_once_with_both_windings() {
    let mut objects = Objects::new();
    let surface = objects.surfaces.insert(Surface::xy_plane());
    let exterior = polygon(&[(0, 0), (3, 0), (0, 3)], &mut objects);
    let same = polygon(&[(2, 1), (1, 2), (1, 1)], &mut objects);
    let face = Face::new(surface, exterior, vec![same], None);

    let mut errors = Vec::new();
    face.validate(&mut errors);
    assert_eq!(
        errors,
        vec![ValidationError::Face(FaceValidationError::InvalidInteriorWinding {
            exterior_winding: Winding::Ccw,
            interior_winding: Winding::Ccw,
            face: face.clone(),
        })]
    );

    let fixed = Face::new(
        face.surface().clone(),
        face.exterior().clone(),
        face.interiors().iter().map(|cycle| cycle.reverse()).collect(),
        face.color(),
    );
    let mut errors = Vec::new();
    fixed.validate(&mut errors);
    assert_eq!(errors, vec![]);
}

#[test]
fn every_invalid_interior_is_reported() {
    let mut objects = Objects::new();
    let surface = objects.surfaces.insert(Surface::xy_plane());
    let exterior = polygon(&[(0, 0), (0, 30), (30, 0)], &mut objects);
    let good = polygon(&[(1, 1), (2, 1), (1, 2)], &mut objects);
    let bad = polygon(&[(5, 5), (5, 6), (6, 5)], &mut objects);
    let worse = polygon(&[(8, 8), (8, 9), (9, 8)], &mut objects);
    let face = Face::new(surface, exterior, vec![bad, good, worse], None);

    let mut errors = vec![ValidationError::Cycle(CycleValidationError::BoundaryNotClosed {
        end_position: Point2::new(0, 0),
        start_position: Point2::new(1, 1),
    })];
    face.validate(&mut errors);
    assert_eq!(errors.len(), 3);
    for error in &errors[1..] {
        assert!(matches!(
            error,
            ValidationError::Face(FaceValidationError::InvalidInteriorWinding {
                exterior_winding: Winding::Cw,
                interior_winding: Winding::Cw,
                ..
            })
        ));
    }
}

#[test]
fn winding_of_polygons_and_circles() {
    let mut objects = Objects::new();
    assert_eq!(polygon(&[(0, 0), (3, 0), (0, 3)], &mut objects).winding(), Some(Winding::Ccw));
    assert_eq!(polygon(&[(1, 1), (1, 2), (2, 1)], &mut objects).winding(), Some(Winding::Cw));
    assert_eq!(polygon(&[(0, 0), (1, 1), (2, 2)], &mut objects).winding(), None);
    assert_eq!(Cycle::empty().winding(), None);
    assert_eq!(polygon(&[(0, 0), (3, 0)], &mut objects).winding(), None);

    let circle = Cycle::circle(Point2::new(0, 0), 2, &mut objects);
    assert_eq!(circle.winding(), Some(Winding::Ccw));
    assert_eq!(circle.reverse().winding(), Some(Winding::Cw));

    assert_eq!(Winding::Ccw.reverse(), Winding::Cw);
    assert!(Winding::Cw.is_cw());
    assert!(!Winding::Cw.is_ccw());
}

#[test]
fn winding_of_large_polygons_is_exact() {
    let mut objects = Objects::new();
    let big = i64::MAX / 2;
    let cycle = polygon(&[(-big, -big), (big, -big), (big, big), (-big, big)], &mut objects);
    assert_eq!(cycle.winding(), Some(Winding::Ccw));
    assert_eq!(cycle.reverse().winding(), Some(Winding::Cw));
}

fn edge(from: (i64, i64), to: (i64, i64), objects: &mut Objects) -> HalfEdge {
    HalfEdge::line_segment(Point2::new(from.0, from.1), Point2::new(to.0, to.1), objects).unwrap()
}

#[test]
fn closed_polygon_has_no_cycle_errors() {
    let mut objects = Objects::new();
    let cycle = polygon(&[(0, 0), (3, 0), (0, 3)], &mut objects);
    assert_eq!(cycle.validate_and_return_first_error(), Ok(()));
    assert_eq!(cycle.reverse().validate_and_return_first_error(), Ok(()));
    assert_eq!(Cycle::empty().validate_and_return_first_error(), Ok(()));
}

#[test]
fn gaps_between_half_edges_are_reported() {
    let mut objects = Objects::new();
    let cycle = Cycle::new(vec![
        edge((0, 0), (3, 0), &mut objects),
        edge((3, 1), (0, 3), &mut objects),
        edge((0, 3), (0, 1), &mut objects),
    ]);
    let mut errors = Vec::new();
    cycle.validate(&mut errors);
    assert_eq!(
        errors,
        vec![
            ValidationError::Cycle(CycleValidationError::AdjacentHalfEdgesNotConnected {
                index: 0,
                end_position: Point2::new(3, 0),
                start_position: Point2::new(3, 1),
            }),
            ValidationError::Cycle(CycleValidationError::BoundaryNotClosed {
                end_position: Point2::new(0, 1),
                start_position: Point2::new(0, 0),
            }),
        ]
    );
    assert_eq!(
        cycle.validate_and_return_first_error(),
        Err(ValidationError::Cycle(CycleValidationError::AdjacentHalfEdgesNotConnected {
            index: 0,
            end_position: Point2::new(3, 0),
            start_position: Point2::new(3, 1),
        }))
    );
    assert_eq!(errors[0].clone(), errors[0]);
}

#[test]
fn open_boundary_is_reported() {
    let mut objects = Objects::new();
    let cycle = Cycle::new(vec![
        edge((0, 0), (3, 0), &mut objects),
        edge((3, 0), (0, 3), &mut objects),
    ]);
    let mut errors = Vec::new();
    CycleValidationError::check_closed(&cycle, &mut errors);
    let expected = CycleValidationError::BoundaryNotClosed {
        end_position: Point2::new(0, 3),
        start_position: Point2::new(0, 0),
    };
    assert_eq!(errors, vec![ValidationError::Cycle(expected)]);
    assert_eq!(expected.message(), "`Cycle` is not closed");

    let mut errors = Vec::new();
    CycleValidationError::check_half_edge_connections(&cycle, &mut errors);
    assert_eq!(errors, vec![]);
}

#[test]
fn error_messages() {
    let mut objects = Objects::new();
    let surface = objects.surfaces.insert(Surface::xy_plane());
    let face = Face::new(surface, Cycle::empty(), vec![], None);
    let error = FaceValidationError::InvalidInteriorWinding {
        exterior_winding: Winding::Ccw,
        interior_winding: Winding::Ccw,
        face,
    };
    assert_eq!(
        error.message(),
        "Interior of `Face` has invalid winding; must be opposite of exterior"
    );
    let gap = CycleValidationError::AdjacentHalfEdgesNotConnected {
        index: 1,
        end_position: Point2::new(0, 0),
        start_position: Point2::new(1, 0),
    };
    assert_eq!(gap.message(), "Adjacent `HalfEdge`s are not connected");
}

#[test]
fn positions_of_half_edges() {
    let mut objects = Objects::new();
    let line = edge((1, 2), (4, 6), &mut objects);
    assert_eq!(line.start_position(), Some(Point2::new(1, 2)));
    assert_eq!(line.end_position(), Some(Point2::new(4, 6)));
    assert_eq!(
        line.path(),
        SurfacePath::Line(Line2 {
            origin: Point2::new(1, 2),
            direction: Vector2 { u: 3, v: 4 },
        })
    );
    assert_eq!(line.boundary(), CurveBoundary::new(Point1::new(0), Point1::new(1)));

    let circle = HalfEdge::circle(Point2::new(0, 0), 1, &mut objects);
    assert_eq!(circle.start_position(), None);
    assert_eq!(circle.end_position(), None);
}

#[test]
fn cycles_with_arcs_are_judged_by_the_corners_handed_in() {
    let corner = |u: i64, v: i64| Point2::new(u, v);
    assert_eq!(
        fj_core::topology::cycle::polygon_winding(&vec![corner(0, 0), corner(3, 0), corner(0, 3)]),
        Some(Winding::Ccw)
    );
    assert_eq!(
        fj_core::topology::cycle::polygon_winding(&vec![corner(0, 0), corner(0, 3), corner(3, 0)]),
        Some(Winding::Cw)
    );
    assert_eq!(fj_core::topology::cycle::polygon_winding(&vec![corner(0, 0), corner(3, 0)]), None);
    assert_eq!(fj_core::topology::cycle::polygon_winding(&vec![]), None);

    let mut objects = Objects::new();
    let surface = objects.surfaces.insert(Surface::xy_plane());
    let arc = HalfEdge::circle(Point2::new(0, 0), 2, &mut objects);
    let exterior = Cycle::new(vec![
        arc.clone(),
        edge((0, 2), (-2, 0), &mut objects),
        edge((-2, 0), (2, 0), &mut objects),
    ]);
    // The kernel cannot tell how a cycle with an arc winds.
    assert_eq!(exterior.winding(), None);
    let face = Face::new(surface, exterior, vec![Cycle::empty(), Cycle::empty()], None);

    let mut errors = Vec::new();
    FaceValidationError::check_windings(
        &face,
        Some(Winding::Ccw),
        &vec![Some(Winding::Cw), Some(Winding::Ccw), None],
        &mut errors,
    );
    assert_eq!(
        errors,
        vec![ValidationError::Face(FaceValidationError::InvalidInteriorWinding {
            exterior_winding: Winding::Ccw,
            interior_winding: Winding::Ccw,
            face: face.clone(),
        })]
    );
    let mut errors = Vec::new();
    FaceValidationError::check_windings(&face, None, &vec![None, Some(Winding::Cw)], &mut errors);
    assert_eq!(errors, vec![]);

    let ends = |list: &[((i64, i64), (i64, i64))]| {
        list.iter()
            .map(|(s, e)| fj_core::validation::positions::Ends {
                start: corner(s.0, s.1),
                end: corner(e.0, e.1),
            })
            .collect::<Vec<_>>()
    };
    let mut errors = Vec::new();
    CycleValidationError::check_ends(
        &ends(&[((2, 0), (0, 2)), ((0, 2), (-2, 0)), ((-2, 0), (2, 0))]),
        &mut errors,
    );
    assert_eq!(errors, vec![]);
    CycleValidationError::check_ends(
        &ends(&[((2, 0), (0, 2)), ((0, 3), (-2, 0)), ((-2, 0), (2, 1))]),
        &mut errors,
    );
    assert_eq!(
        errors,
        vec![
            ValidationError::Cycle(CycleValidationError::AdjacentHalfEdgesNotConnected {
                index: 0,
                end_position: corner(0, 2),
                start_position: corner(0, 3),
            }),
            ValidationError::Cycle(CycleValidationError::BoundaryNotClosed {
                end_position: corner(2, 1),
                start_position: corner(2, 0),
            }),
        ]
    );
    let mut errors = Vec::new();
    CycleValidationError::check_ends(&ends(&[]), &mut errors);
    CycleValidationError::check_ends(&ends(&[((1, 1), (1, 1))]), &mut errors);
    assert_eq!(errors, vec![]);
}
