use poly_intersect::geometry::Point;
use poly_intersect::polygon::Polygon;
use poly_intersect::scan::{count_intersecting_pairs, make_rect, make_rects};
use poly_intersect::segment::Segment;

#[test]
fn new_rect_corners_in_order() {
    let r = Polygon::new_rect(0, 0, 100, 100);
    assert_eq!(r.points.len(), 4);
    assert_eq!(
        r.points,
        vec![Point::new(0, 0), Point::new(0, 100), Point::new(100, 100), Point::new(100, 0)]
    );
}

#[test]
fn segments_wrap_around() {
    let r = Polygon::new_rect(0, 0, 100, 100);
    assert_eq!(r.segment(0), Segment::new(Point::new(0, 0), Point::new(0, 100)));
    assert_eq!(r.segment(3), Segment::new(Point::new(100, 0), Point::new(0, 0)));
}

#[test]
fn overlapping_rectangles_intersect() {
    let a = Polygon::new_rect(0, 0, 100, 100);
    let b = Polygon::new_rect(50, 50, 100, 100);
    assert!(a.intersects(&b));
    assert!(b.intersects(&a));
}

#[test]
fn disjoint_rectangles_do_not_intersect() {
    let a = Polygon::new_rect(0, 0, 100, 100);
    let b = Polygon::new_rect(200, 200, 100, 100);
    assert!(!a.intersects(&b));
    assert!(!b.intersects(&a));
}

#[test]
fn empty_polygon_intersects_nothing() {
    let e = Polygon::new(Vec::new());
    let a = Polygon::new_rect(0, 0, 100, 100);
    assert!(!e.intersects(&a));
    assert!(!a.intersects(&e));
}

#[test]
fn make_rect_is_offset_square() {
    let r = make_rect(5);
    assert_eq!(
        r.points,
        vec![Point::new(5, 5), Point::new(5, 105), Point::new(105, 105), Point::new(105, 5)]
    );
}

#[test]
fn make_rects_offsets_along_diagonal() {
    let rs = make_rects(3, 10);
    assert_eq!(rs.len(), 3);
    assert_eq!(rs[2].points, Polygon::new_rect(2, 2, 10, 10).points);
    assert!(make_rects(0, 10).is_empty());
    assert!(make_rects(-4, 10).is_empty());
}

#[test]
fn small_scans() {
    assert_eq!(count_intersecting_pairs(&make_rects(3, 100)), 3);
    assert_eq!(count_intersecting_pairs(&make_rects(5, 1)), 4);
    assert_eq!(count_intersecting_pairs(&make_rects(1, 100)), 0);
    assert_eq!(count_intersecting_pairs(&Vec::new()), 0);
    assert_eq!(count_intersecting_pairs(&make_rects(7, 3)), 15);
    assert_eq!(count_intersecting_pairs(&make_rects(5, 0)), 0);
}

#[test]
fn squares_meet_within_their_side() {
    assert!(make_rect(0).intersects(&make_rect(100)));
    assert!(!make_rect(0).intersects(&make_rect(101)));
    assert!(make_rect(100).intersects(&make_rect(0)));
    assert!(!make_rect(101).intersects(&make_rect(0)));
}

#[test]
fn thousand_squares_count_is_reproducible() {
    let first = count_intersecting_pairs(&make_rects(1000, 100));
    let second = count_intersecting_pairs(&make_rects(1000, 100));
    assert_eq!(first, 94950);
    assert_eq!(first, second);
}
