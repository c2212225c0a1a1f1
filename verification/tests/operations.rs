use fj_core::geometry::boundary::CurveBoundary;
use fj_core::geometry::path::{Circle2, Line2, SurfacePath, FULL_TURN};
use fj_core::math::{Point1, Point2, Vector2};
use fj_core::operations::builder::{extend_by_polygon, BuildCycle, Connection, CycleBuilder};
use fj_core::operations::update::UpdateHalfEdge;
use fj_core::topology::cycle::Cycle;
use fj_core::topology::edge::HalfEdge;
use fj_core::topology::face::{Color, Face};
use fj_core::topology::objects::Objects;
use fj_core::topology::sketch::Sketch;
use fj_core::geometry::surfaces::Surface;

fn points(list: &[(i64, i64)]) -> Vec<Point2> {
    list.iter().map(|p| Point2::new(p.0, p.1)).collect()
}

fn line(from: (i64, i64), direction: (i64, i64)) -> SurfacePath {
    SurfacePath::Line(Line2 {
        origin: Point2::new(from.0, from.1),
        direction: Vector2 { u: direction.0, v: direction.1 },
    })
}

fn unit() -> CurveBoundary {
    CurveBoundary::new(Point1::new(0), Point1::new(1))
}

#[test]
fn polygon_has_a_side_from_each_corner_to_the_next() {
    let mut objects = Objects::new();
    let cycle = Cycle::polygon(points(&[(0, 0), (3, 0), (0, 3)]), &mut objects).unwrap();
    let edges = cycle.half_edges();
    assert_eq!(edges.len(), 3);
    assert_eq!(edges[0].path(), line((0, 0), (3, 0)));
    assert_eq!(edges[1].path(), line((3, 0), (-3, 3)));
    assert_eq!(edges[2].path(), line((0, 3), (0, -3)));
    for (i, edge) in edges.iter().enumerate() {
        assert_eq!(edge.boundary(), unit());
        assert_eq!(edge.curve().index(), i);
        assert_eq!(edge.start_vertex().index(), i);
        assert_eq!(edge.global_form().index(), i);
    }
    assert_eq!(edges[2].end_position(), edges[0].start_position());
    assert_eq!(objects.curves.len(), 3);
    assert_eq!(objects.vertices.len(), 3);
    assert_eq!(objects.global_edges.len(), 3);
    assert_eq!(objects.half_edges.len(), 0);
}

#[test]
fn polygon_of_few_points() {
    let mut objects = Objects::new();
    let none = Cycle::polygon(vec![], &mut objects).unwrap();
    assert_eq!(none, Cycle::empty());
    assert!(none.is_empty());

    let one = Cycle::polygon(points(&[(4, 5)]), &mut objects).unwrap();
    assert_eq!(one.len(), 1);
    assert_eq!(one.half_edges()[0].path(), line((4, 5), (0, 0)));

    let two = Cycle::polygon(points(&[(0, 0), (2, 1)]), &mut objects).unwrap();
    assert_eq!(two.len(), 2);
    assert_eq!(two.half_edges()[0].path(), line((0, 0), (2, 1)));
    assert_eq!(two.half_edges()[1].path(), line((2, 1), (-2, -1)));
}

#[test]
fn polygon_that_cannot_be_written_stores_nothing() {
    let mut objects = Objects::new();
    let corners = points(&[(0, 0), (i64::MAX, 0), (-2, 5)]);
    assert_eq!(Cycle::polygon(corners.clone(), &mut objects), None);
    assert_eq!(Cycle::empty().update_as_polygon_from_points(corners.clone(), &mut objects), None);
    assert_eq!(extend_by_polygon(Cycle::empty(), &corners, &mut objects), None);
    assert_eq!(objects.curves.len(), 0);
    assert_eq!(objects.vertices.len(), 0);
    assert_eq!(objects.global_edges.len(), 0);
    assert_eq!(objects.half_edges.len(), 0);
    assert_eq!(
        HalfEdge::line_segment(Point2::new(i64::MAX, 0), Point2::new(-2, 5), &mut objects),
        None
    );
    assert_eq!(objects.curves.len(), 0);
}

#[test]
fn update_as_polygon_adds_to_the_cycle_and_stores_the_sides() {
    let mut objects = Objects::new();
    let first = Cycle::circle(Point2::new(0, 0), 2, &mut objects);
    let cycle = first
        .clone()
        .update_as_polygon_from_points(points(&[(0, 0), (1, 0), (0, 1)]), &mut objects)
        .unwrap();
    assert_eq!(cycle.len(), 4);
    assert_eq!(cycle.half_edges()[0], first.half_edges()[0]);
    assert_eq!(cycle.half_edges()[1].path(), line((0, 0), (1, 0)));
    assert_eq!(cycle.half_edges()[3].path(), line((0, 1), (0, -1)));
    assert_eq!(cycle.half_edges()[1].curve().index(), 1);
    assert_eq!(objects.half_edges.len(), 3);
    assert_eq!(objects.curves.len(), 4);
}

#[test]
fn circle_goes_once_around() {
    let mut objects = Objects::new();
    let cycle = Cycle::circle(Point2::new(1, 2), 5, &mut objects);
    assert_eq!(cycle.len(), 1);
    let edge = &cycle.half_edges()[0];
    assert_eq!(
        edge.path(),
        SurfacePath::Circle(Circle2 {
            center: Point2::new(1, 2),
            a: Vector2 { u: 5, v: 0 },
            b: Vector2 { u: 0, v: 5 },
        })
    );
    assert_eq!(edge.boundary(), CurveBoundary::new(Point1::new(0), Point1::new(FULL_TURN)));
    assert_eq!(objects.curves.len(), 1);
}

#[test]
fn add_half_edge_stores_it_and_puts_it_last() {
    let mut objects = Objects::new();
    let a = HalfEdge::line_segment(Point2::new(0, 0), Point2::new(1, 0), &mut objects).unwrap();
    let b = HalfEdge::line_segment(Point2::new(1, 0), Point2::new(0, 0), &mut objects).unwrap();
    let (cycle, first) = Cycle::empty().add_half_edge(a.clone(), &mut objects);
    let (cycle, second) = cycle.add_half_edge(b.clone(), &mut objects);
    assert_eq!(cycle, Cycle::new(vec![a.clone(), b.clone()]));
    assert_eq!((first.index(), second.index()), (0, 1));
    assert_eq!(*objects.half_edges.get(&first), a);
    assert_eq!(*objects.half_edges.get(&second), b);
}

#[test]
fn connect_to_edges_starts_each_where_the_one_before_starts() {
    let mut objects = Objects::new();
    let given = Cycle::polygon(points(&[(0, 0), (3, 0), (0, 3)]), &mut objects).unwrap();
    let connections: Vec<Connection> = given
        .half_edges()
        .iter()
        .enumerate()
        .map(|(i, edge)| Connection {
            edge: edge.clone(),
            path: line((i as i64, 0), (1, 1)),
            boundary: CurveBoundary::new(Point1::new(i as i64), Point1::new(9)),
        })
        .collect();
    let (cycle, handles) = Cycle::empty().connect_to_edges(connections, &mut objects);
    assert_eq!(cycle.len(), 3);
    assert_eq!(handles.len(), 3);
    let previous = [2, 0, 1];
    for (i, edge) in cycle.half_edges().iter().enumerate() {
        assert_eq!(edge.path(), line((i as i64, 0), (1, 1)));
        assert_eq!(edge.boundary(), CurveBoundary::new(Point1::new(i as i64), Point1::new(9)));
        assert_eq!(edge.start_vertex(), given.half_edges()[previous[i]].start_vertex());
        assert_eq!(edge.curve().index(), 3 + i);
        assert_eq!(edge.global_form().index(), 3 + i);
        assert_eq!(handles[i].index(), i);
        assert_eq!(objects.half_edges.get(&handles[i]), edge);
    }
    assert_eq!(objects.vertices.len(), 3);
    assert_eq!(objects.curves.len(), 6);

    let (unchanged, no_handles) =
        cycle.clone().connect_to_edges(vec![], &mut objects);
    assert_eq!(unchanged, cycle);
    assert_eq!(no_handles, vec![]);
}

#[test]
fn replace_makes_a_new_half_edge_and_leaves_the_old() {
    let mut objects = Objects::new();
    let edge = HalfEdge::line_segment(Point2::new(0, 0), Point2::new(1, 0), &mut objects).unwrap();
    let other = HalfEdge::line_segment(Point2::new(5, 5), Point2::new(7, 5), &mut objects).unwrap();

    let replaced = edge.replace_path(other.path());
    assert_eq!(replaced.path(), other.path());
    assert_eq!(replaced.boundary(), edge.boundary());
    assert_eq!(replaced.curve(), edge.curve());
    assert_eq!(replaced.start_vertex(), edge.start_vertex());
    assert_eq!(replaced.global_form(), edge.global_form());
    assert_eq!(edge.path(), line((0, 0), (1, 0)));

    let boundary = CurveBoundary::new(Point1::new(3), Point1::new(8));
    let replaced = edge.replace_boundary(boundary);
    assert_eq!(replaced, HalfEdge::new(
        edge.path(),
        boundary,
        edge.curve().clone(),
        edge.start_vertex().clone(),
        edge.global_form().clone(),
    ));

    let replaced = edge.replace_curve(other.curve().clone());
    assert_eq!(replaced.curve(), other.curve());
    assert_eq!(replaced.start_vertex(), edge.start_vertex());
    assert_eq!(replaced.path(), edge.path());

    let replaced = edge.replace_start_vertex(other.start_vertex().clone());
    assert_eq!(replaced.start_vertex(), other.start_vertex());
    assert_eq!(replaced.curve(), edge.curve());
    assert_eq!(replaced.boundary(), edge.boundary());
}

#[test]
fn cycle_reverse_turns_every_half_edge_around() {
    let mut objects = Objects::new();
    let cycle = Cycle::polygon(points(&[(0, 0), (3, 0), (0, 3)]), &mut objects).unwrap();
    let reversed = cycle.reverse();
    let edges = cycle.half_edges();
    let turned = reversed.half_edges();
    assert_eq!(turned.len(), 3);
    assert_eq!(turned[0].path(), edges[2].path());
    assert_eq!(turned[0].boundary(), CurveBoundary::new(Point1::new(1), Point1::new(0)));
    assert_eq!(turned[0].start_vertex(), edges[0].start_vertex());
    assert_eq!(turned[0].curve(), edges[2].curve());
    assert_eq!(turned[1].start_vertex(), edges[2].start_vertex());
    assert_eq!(turned[2].start_vertex(), edges[1].start_vertex());
    assert_eq!(turned[2].path(), edges[0].path());
    assert_eq!(turned[0].start_position(), Some(Point2::new(0, 0)));
    assert_eq!(turned[1].start_position(), Some(Point2::new(0, 3)));
    assert_eq!(turned[2].start_position(), Some(Point2::new(3, 0)));
    assert_eq!(reversed.reverse(), cycle);
    assert_eq!(cycle.duplicate(), cycle);
    assert_eq!(Cycle::empty().reverse(), Cycle::empty());
}

#[test]
fn sketch_collects_faces() {
    let mut objects = Objects::new();
    let surface = objects.surfaces.insert(Surface::xy_plane());
    let builder = Sketch::builder(&objects, surface.clone());
    assert_eq!(builder.surface, surface);
    assert_eq!(builder.objects.surfaces.len(), 1);

    let mut objects = Objects::new();
    let surface = objects.surfaces.insert(Surface::xy_plane());
    let a = Face::new(
        surface.clone(),
        Cycle::polygon(points(&[(0, 0), (3, 0), (0, 3)]), &mut objects).unwrap(),
        vec![],
        Some(Color { r: 255, g: 0, b: 0, a: 255 }),
    );
    let b = Face::new(
        surface.clone(),
        Cycle::circle(Point2::new(9, 9), 1, &mut objects),
        vec![Cycle::empty()],
        None,
    );

    let sketch = Sketch::new();
    assert_eq!(sketch.faces().len(), 0);
    assert_eq!(sketch, Sketch::default());
    let sketch = sketch.with_faces(vec![a.clone()]);
    assert_eq!(sketch.faces(), &vec![a.clone()]);
    // A face that the sketch holds already is not added again.
    let sketch = sketch.with_faces(vec![b.clone(), a.clone(), b.clone()]);
    assert_eq!(sketch.faces(), &vec![a.clone(), b.clone()]);
    assert_eq!(sketch.clone(), sketch);
    assert_eq!(sketch.into_faces(), vec![a.clone(), b.clone()]);
    assert!(a.same_as(&a.duplicate()));
    assert!(!a.same_as(&b));

    assert_eq!(a.color(), Some(Color { r: 255, g: 0, b: 0, a: 255 }));
    assert_eq!(a.surface(), &surface);
    assert_eq!(b.interiors().len(), 1);
    assert_eq!(a.duplicate(), a);
    assert_eq!(b.exterior().len(), 1);
}
