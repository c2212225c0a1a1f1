use fj_core::geometry::boundary::CurveBoundary;
use fj_core::math::Point1;

fn boundary(start: i64, end: i64) -> CurveBoundary {
    CurveBoundary::new(Point1::new(start), Point1::new(end))
}

#[test]
fn boundary_reverse_swaps_the_ends() {
    assert_eq!(boundary(1, 4).reverse(), boundary(4, 1));
    assert_eq!(boundary(1, 4).reverse().reverse(), boundary(1, 4));
}

#[test]
fn boundary_normalize_puts_the_smaller_end_first() {
    assert!(boundary(1, 4).is_normalized());
    assert!(!boundary(4, 1).is_normalized());
    assert!(boundary(2, 2).is_normalized());
    assert_eq!(boundary(4, 1).normalize(), boundary(1, 4));
    assert_eq!(boundary(1, 4).normalize(), boundary(1, 4));
}

#[test]
fn boundary_is_empty_when_its_ends_are_the_same() {
    assert!(!boundary(1, 4).is_empty());
    assert!(boundary(4, 4).is_empty());
    assert!(!boundary(4, 1).is_empty());
    assert_eq!(boundary(4, 1).is_empty(), boundary(4, 1).reverse().is_empty());
}

#[test]
fn boundary_contains_only_what_lies_strictly_inside() {
    let b = boundary(1, 4);
    assert!(b.contains(Point1::new(2)));
    assert!(b.contains(Point1::new(3)));
    assert!(!b.contains(Point1::new(1)));
    assert!(!b.contains(Point1::new(4)));
    assert!(!b.contains(Point1::new(0)));
    assert!(!b.contains(Point1::new(5)));
    assert!(boundary(4, 1).contains(Point1::new(2)));
}

#[test]
fn boundary_overlaps_when_the_intervals_share_a_parameter() {
    assert!(boundary(1, 4).overlaps(&boundary(3, 6)));
    assert!(boundary(1, 4).overlaps(&boundary(4, 6)));
    assert!(boundary(1, 4).overlaps(&boundary(2, 3)));
    assert!(boundary(4, 1).overlaps(&boundary(6, 3)));
    assert!(!boundary(1, 4).overlaps(&boundary(5, 6)));
    assert!(!boundary(5, 6).overlaps(&boundary(1, 4)));
}

#[test]
fn boundary_union_covers_both() {
    assert_eq!(boundary(1, 4).union(boundary(3, 6)), boundary(1, 6));
    assert_eq!(boundary(3, 6).union(boundary(1, 4)), boundary(1, 6));
    assert_eq!(boundary(4, 1).union(boundary(6, 3)), boundary(1, 6));
    assert_eq!(boundary(1, 9).union(boundary(3, 6)), boundary(1, 9));
}

#[test]
fn boundary_subset_is_what_both_cover() {
    assert_eq!(boundary(1, 4).subset(boundary(3, 6)), boundary(3, 4));
    assert_eq!(boundary(1, 9).subset(boundary(3, 6)), boundary(3, 6));
    assert_eq!(boundary(4, 1).subset(boundary(6, 3)), boundary(3, 4));
    assert!(boundary(1, 2).subset(boundary(5, 6)).is_empty());
    assert_eq!(boundary(1, 2).subset(boundary(5, 6)), boundary(5, 5));
    assert_eq!(boundary(1, 3).subset(boundary(3, 6)), boundary(3, 3));
    assert!(boundary(6, 3).subset(boundary(3, 1)).is_empty());
}
