use poly_intersect::geometry::{Line, Point, Vector};
use poly_intersect::segment::Segment;

fn seg(x1: i32, y1: i32, x2: i32, y2: i32) -> Segment {
    Segment::new(Point::new(x1, y1), Point::new(x2, y2))
}

#[test]
fn as_line_runs_from_first_endpoint() {
    let s = seg(1, 2, 4, -2);
    assert_eq!(s.as_line(), Line::new(Point::new(1, 2), Vector::new(3, -4)));
    assert_eq!(s.length_squared(), 25);
}

#[test]
fn segment_line_against_itself_is_parallel() {
    let s = seg(1, 2, 4, -2);
    assert_eq!(s.as_line().intersection_param(&s.as_line()), None);
    assert!(!s.intersects(&s));
}

#[test]
fn parallel_horizontal_segments_do_not_intersect() {
    let a = seg(0, 0, 10, 0);
    let b = seg(0, 5, 10, 5);
    assert!(!a.intersects(&b));
    assert!(!b.intersects(&a));
}

#[test]
fn crossing_segments_intersect() {
    let a = seg(0, 0, 10, 0);
    let b = seg(5, -3, 5, 3);
    assert!(a.intersects(&b));
    assert!(b.intersects(&a));
}

#[test]
fn crossing_outside_the_segment_does_not_count() {
    let a = seg(0, 0, 10, 0);
    let b = seg(20, -3, 20, 3);
    assert!(!a.intersects(&b));
    let c = seg(-1, -3, -1, 3);
    assert!(!a.intersects(&c));
}

#[test]
fn only_the_calling_segment_bounds_the_crossing() {
    let a = seg(0, 0, 10, 0);
    let b = seg(5, 10, 5, 20);
    assert!(a.intersects(&b));
    assert!(!b.intersects(&a));
}

#[test]
fn endpoints_count_as_on_the_segment() {
    let a = seg(0, 0, 10, 0);
    assert!(a.intersects(&seg(0, -1, 0, 1)));
    assert!(a.intersects(&seg(10, -1, 10, 1)));
}

#[test]
fn degenerate_segment_meets_nothing() {
    let d = seg(3, 0, 3, 0);
    let a = seg(0, 0, 10, 0);
    let b = seg(3, -5, 3, 5);
    assert_eq!(d.length_squared(), 0);
    assert!(!d.intersects(&a));
    assert!(!d.intersects(&b));
    assert!(!a.intersects(&d));
    assert!(!b.intersects(&d));
}
