use fj_core::algorithms::approx::sampling::{sample_angles, VertexCount};
use fj_core::geometry::boundary::CurveBoundary;
use fj_core::geometry::path::FULL_TURN;
use fj_core::math::Point1;

fn boundary(start: i64, end: i64) -> CurveBoundary {
    CurveBoundary::new(Point1::new(start), Point1::new(end))
}

fn angles(start: i64, end: i64, count: u32) -> Vec<i64> {
    sample_angles(boundary(start, end), VertexCount::new(count)).iter().map(|p| p.t).collect()
}

const QUARTER: i64 = FULL_TURN / 4;

#[test]
fn at_least_three_vertices_approximate_a_circle() {
    assert_eq!(VertexCount::new(0).get(), 3);
    assert_eq!(VertexCount::new(2).get(), 3);
    assert_eq!(VertexCount::new(3).get(), 3);
    assert_eq!(VertexCount::new(4).get(), 4);
    assert_eq!(VertexCount::new(u32::MAX).get(), u32::MAX);
}

#[test]
fn full_circle_is_sampled_without_its_ends() {
    assert_eq!(angles(0, FULL_TURN, 4), vec![QUARTER, 2 * QUARTER, 3 * QUARTER]);
    assert_eq!(angles(0, FULL_TURN, 3), vec![1_431_655_765, 2_863_311_530]);
    assert_eq!(angles(0, FULL_TURN, 1), vec![1_431_655_765, 2_863_311_530]);
}

#[test]
fn reversed_range_is_sampled_in_opposite_order() {
    assert_eq!(angles(FULL_TURN, 0, 4), vec![3 * QUARTER, 2 * QUARTER, QUARTER]);
    for (start, end, count) in [(-7, 3 * FULL_TURN + 5, 5), (12345, 9 * QUARTER, 7), (0, 1, 3)] {
        let mut forward = angles(start, end, count);
        forward.reverse();
        assert_eq!(angles(end, start, count), forward);
    }
}

#[test]
fn pieces_of_a_circle_are_sampled_strictly_inside() {
    assert_eq!(angles(QUARTER, 3 * QUARTER, 4), vec![2 * QUARTER]);
    assert_eq!(angles(QUARTER - 1, 3 * QUARTER + 1, 4), vec![QUARTER, 2 * QUARTER, 3 * QUARTER]);
    assert_eq!(angles(QUARTER, 2 * QUARTER, 4), vec![]);
    assert_eq!(angles(QUARTER + 1, 2 * QUARTER - 1, 4), vec![]);
    assert_eq!(angles(5, 5, 4), vec![]);
    assert_eq!(angles(-QUARTER - 1, QUARTER + 1, 4), vec![-QUARTER, 0, QUARTER]);
    assert_eq!(angles(-1, 1, 1000), vec![0]);
    assert_eq!(
        angles(FULL_TURN - 1, 2 * FULL_TURN + 1, 4),
        vec![FULL_TURN, 5 * QUARTER, 6 * QUARTER, 7 * QUARTER, 2 * FULL_TURN]
    );
}

#[test]
fn ends_of_the_coordinate_range_are_sampled_without_overflow() {
    let top = angles(i64::MAX - 2 * QUARTER, i64::MAX, 4);
    assert_eq!(top, vec![i64::MAX - 2 * QUARTER + 1, i64::MAX - QUARTER + 1]);
    let bottom = angles(i64::MIN, i64::MIN + 2 * QUARTER, 4);
    assert_eq!(bottom, vec![i64::MIN + QUARTER]);
    // With as many vertices as there are angles, the vertices are dense.
    let dense = angles(i64::MAX - 3, i64::MAX, u32::MAX);
    assert!(dense.len() <= 2);
    assert!(dense.iter().all(|t| i64::MAX - 3 < *t && *t < i64::MAX));
    assert!(dense.windows(2).all(|pair| pair[0] < pair[1]));
}
