use fj_core::algorithms::approx::curve::CurveApprox;
use fj_core::algorithms::approx::points::{sort_points, ApproxPoint, CurveApproxPoints};
use fj_core::algorithms::approx::segment::CurveApproxSegment;
use fj_core::geometry::boundary::CurveBoundary;
use fj_core::math::{Point1, Point3};

fn boundary(start: i64, end: i64) -> CurveBoundary {
    CurveBoundary::new(Point1::new(start), Point1::new(end))
}

fn point(t: i64) -> ApproxPoint {
    ApproxPoint::new(Point1::new(t), Point3::new(t, t, t))
}

fn segment(start: i64, end: i64, points: &[i64]) -> CurveApproxSegment {
    CurveApproxSegment::new(boundary(start, end), points.iter().map(|t| point(*t)).collect())
}

#[test]
fn reverse() {
    let mut approx = CurveApprox::from_segments(vec![
        CurveApproxSegment::new(boundary(1, 4), vec![point(1), point(4)]),
        CurveApproxSegment::new(boundary(6, 9), vec![point(6), point(9)]),
    ]);

    approx.reverse();

    assert_eq!(
        approx,
        CurveApprox::from_segments(vec![
            CurveApproxSegment::new(boundary(9, 6), vec![point(9), point(6)]),
            CurveApproxSegment::new(boundary(4, 1), vec![point(4), point(1)]),
        ])
    )
}

#[test]
fn reverse_twice_gives_the_approximation_back() {
    let start = CurveApprox::from_segments(vec![
        segment(1, 4, &[2, 3]),
        segment(6, 9, &[7]),
    ]);
    let mut approx = start.clone();
    approx.reverse();
    approx.reverse();
    assert_eq!(approx, start);
}

#[test]
fn points_reverse_and_subset_and_merge() {
    let mut points = CurveApproxPoints::from_vec(vec![point(1), point(2), point(3), point(4)]);
    points.reverse();
    assert_eq!(points.inner, vec![point(4), point(3), point(2), point(1)]);

    points.make_subset(boundary(1, 4));
    assert_eq!(points.inner, vec![point(3), point(2)]);

    let other = CurveApproxPoints::from_vec(vec![point(5), point(2)]);
    points.merge(&other, boundary(2, 6));
    assert_eq!(points.inner, vec![point(2), point(2), point(5)]);

    let mut own = CurveApproxPoints::from_vec(vec![point(1), point(3), point(7)]);
    own.merge(&CurveApproxPoints::from_vec(vec![point(4)]), boundary(2, 6));
    assert_eq!(own.inner, vec![point(1), point(4), point(7)]);
}

#[test]
fn sort_points_orders_by_parameter_then_by_position() {
    let a = ApproxPoint::new(Point1::new(2), Point3::new(0, 0, 0));
    let b = ApproxPoint::new(Point1::new(1), Point3::new(5, 0, 0));
    let c = ApproxPoint::new(Point1::new(1), Point3::new(4, 9, 9));
    let d = ApproxPoint::new(Point1::new(1), Point3::new(4, 9, 8));
    assert_eq!(sort_points(&vec![a, b, c, d]), vec![d, c, b, a]);
    assert_eq!(sort_points(&vec![]), vec![]);
    assert!(d.precedes(&c));
    assert!(!c.precedes(&d));
    assert!(!c.precedes(&c));
}

#[test]
fn into_single_segment_needs_exactly_the_boundary() {
    let one = CurveApprox::from_segments(vec![segment(1, 4, &[2, 3])]);
    assert_eq!(one.clone().into_single_segment(boundary(1, 4)), Some(segment(1, 4, &[2, 3])));
    assert_eq!(one.clone().into_single_segment(boundary(1, 5)), None);
    assert_eq!(one.into_single_segment(boundary(4, 1)), None);

    let none = CurveApprox::new();
    assert_eq!(none.into_single_segment(boundary(1, 4)), None);

    let two = CurveApprox::from_segments(vec![segment(1, 4, &[]), segment(6, 9, &[])]);
    assert_eq!(two.into_single_segment(boundary(1, 4)), None);
}

#[test]
fn make_subset_cuts_segments_and_drops_empty_ones() {
    let mut approx = CurveApprox::from_segments(vec![
        segment(1, 4, &[2, 3]),
        segment(6, 9, &[7, 8]),
        segment(12, 15, &[13]),
    ]);
    approx.make_subset(boundary(3, 7));
    assert_eq!(
        approx,
        CurveApprox::from_segments(vec![segment(3, 4, &[]), segment(6, 7, &[])])
    );

    let mut wide = CurveApprox::from_segments(vec![segment(1, 9, &[2, 4, 6, 8])]);
    wide.make_subset(boundary(8, 3));
    assert_eq!(wide, CurveApprox::from_segments(vec![segment(3, 8, &[4, 6])]));
}

#[test]
fn make_subset_twice_is_make_subset_once() {
    let mut once = CurveApprox::from_segments(vec![
        segment(1, 4, &[2, 3]),
        segment(6, 9, &[7, 8]),
        segment(12, 15, &[13]),
    ]);
    once.make_subset(boundary(2, 8));
    let mut twice = once.clone();
    twice.make_subset(boundary(2, 8));
    assert_eq!(once, twice);
    assert_eq!(
        once,
        CurveApprox::from_segments(vec![segment(2, 4, &[3]), segment(6, 8, &[7])])
    );
}

#[test]
fn merge_into_empty_stores_the_segment() {
    let mut approx = CurveApprox::new();
    let merged = approx.merge(segment(1, 4, &[2, 3]));
    assert_eq!(merged, segment(1, 4, &[2, 3]));
    assert_eq!(approx, CurveApprox::from_segments(vec![segment(1, 4, &[2, 3])]));
}

#[test]
fn merge_joins_what_overlaps_and_keeps_the_rest_sorted() {
    let mut approx = CurveApprox::from_segments(vec![
        segment(1, 4, &[2, 3]),
        segment(6, 9, &[7, 8]),
        segment(12, 15, &[13]),
    ]);
    let merged = approx.merge(segment(3, 7, &[5]));
    assert_eq!(merged, segment(1, 9, &[2, 3, 5, 7, 8]));
    assert_eq!(
        approx,
        CurveApprox::from_segments(vec![
            segment(1, 9, &[2, 3, 5, 7, 8]),
            segment(12, 15, &[13]),
        ])
    );

    let merged = approx.merge(segment(10, 11, &[]));
    assert_eq!(merged, segment(10, 11, &[]));
    assert_eq!(
        approx,
        CurveApprox::from_segments(vec![
            segment(1, 9, &[2, 3, 5, 7, 8]),
            segment(10, 11, &[]),
            segment(12, 15, &[13]),
        ])
    );
}

#[test]
fn merge_replaces_points_that_the_other_boundary_contains() {
    let mut approx = CurveApprox::from_segments(vec![segment(4, 8, &[5, 7])]);
    let merged = approx.merge(segment(1, 9, &[2, 6]));
    assert_eq!(merged, segment(1, 9, &[2, 5, 7]));
}

#[test]
fn merges_leave_no_overlap_and_cover_every_merged_boundary() {
    let news = vec![
        segment(10, 12, &[11]),
        segment(1, 3, &[2]),
        segment(3, 5, &[4]),
        segment(20, 25, &[]),
        segment(11, 21, &[15]),
        segment(7, 8, &[]),
    ];
    let mut approx = CurveApprox::new();
    for new in news.iter() {
        approx.merge(new.clone());
    }
    let segments = approx.segments();
    for (i, a) in segments.iter().enumerate() {
        for (j, b) in segments.iter().enumerate() {
            if i != j {
                assert!(!a.boundary.overlaps(&b.boundary));
            }
        }
    }
    for t in 0..30 {
        let covered = |b: &CurveBoundary| b.start.t <= t && t <= b.end.t;
        let merged_in = news.iter().any(|s| covered(&s.boundary));
        let stored = segments.iter().any(|s| covered(&s.boundary));
        assert_eq!(merged_in, stored);
    }
    assert_eq!(
        approx,
        CurveApprox::from_segments(vec![
            segment(1, 5, &[2, 4]),
            segment(7, 8, &[]),
            segment(10, 25, &[11, 15]),
        ])
    );
}

#[test]
fn segment_reverse_and_same_as() {
    let mut s = segment(1, 4, &[2, 3]);
    assert!(s.is_normalized());
    assert!(!s.is_empty());
    s.reverse();
    assert_eq!(s, segment(4, 1, &[3, 2]));
    assert!(s.same_as(&segment(4, 1, &[3, 2])));
    assert!(!s.same_as(&segment(4, 1, &[2, 3])));
    assert!(s.duplicate().same_as(&s));
}

#[test]
fn merged_segment_with_empty_boundary_is_not_stored() {
    let mut approx = CurveApprox::from_segments(vec![segment(1, 4, &[2, 3])]);
    let merged = approx.merge(segment(7, 7, &[7]));
    assert_eq!(merged, segment(7, 7, &[7]));
    assert_eq!(approx, CurveApprox::from_segments(vec![segment(1, 4, &[2, 3])]));

    // Where it overlaps a stored segment, the two are merged and stored.
    let merged = approx.merge(segment(4, 4, &[]));
    assert_eq!(merged, segment(1, 4, &[2, 3]));
    assert_eq!(approx, CurveApprox::from_segments(vec![segment(1, 4, &[2, 3])]));
    assert!(approx.segments().iter().all(|s| !s.boundary.is_empty()));

    // A boundary that runs backwards is not empty.
    let merged = approx.merge(segment(9, 6, &[]));
    assert_eq!(merged, segment(9, 6, &[]));
    assert_eq!(
        approx,
        CurveApprox::from_segments(vec![segment(1, 4, &[2, 3]), segment(9, 6, &[])])
    );
    approx.reverse();
    assert!(approx.segments().iter().all(|s| !s.boundary.is_empty()));
}

#[test]
fn segments_with_equal_boundaries_are_ordered_by_their_points() {
    let mut approx = CurveApprox::from_segments(vec![
        segment(0, 1, &[5]),
        segment(0, 1, &[1, 9]),
        segment(0, 1, &[1]),
        segment(0, 1, &[]),
    ]);
    approx.merge(segment(10, 11, &[]));
    assert_eq!(
        approx,
        CurveApprox::from_segments(vec![
            segment(0, 1, &[]),
            segment(0, 1, &[1]),
            segment(0, 1, &[1, 9]),
            segment(0, 1, &[5]),
            segment(10, 11, &[]),
        ])
    );
    let mut expected = approx.segments().clone();
    expected.sort();
    assert_eq!(approx.segments(), &expected);
}

#[test]
fn overlapping_segments_are_merged_in_the_order_in_which_they_are_taken_out() {
    // The first segment is taken out and the last one put in its place, so
    // the last is merged before the second: its boundary no longer removes
    // the point of the second.
    let mut approx = CurveApprox::from_segments(vec![
        segment(0, 10, &[]),
        segment(0, 10, &[5]),
        segment(4, 6, &[]),
    ]);
    let merged = approx.merge(segment(0, 10, &[]));
    assert_eq!(merged, segment(0, 10, &[5]));
    assert_eq!(approx, CurveApprox::from_segments(vec![segment(0, 10, &[5])]));

    let mut approx = CurveApprox::from_segments(vec![
        segment(0, 10, &[5]),
        segment(20, 30, &[]),
        segment(4, 6, &[]),
    ]);
    let merged = approx.merge(segment(0, 10, &[]));
    assert_eq!(merged, segment(0, 10, &[]));
    assert_eq!(
        approx,
        CurveApprox::from_segments(vec![segment(0, 10, &[]), segment(20, 30, &[])])
    );
}
