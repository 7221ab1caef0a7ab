use poly_intersect::geometry::{Line, Param, Point, Vector};

#[test]
fn cross_is_antisymmetric() {
    let u = Vector::new(3, 4);
    let v = Vector::new(-2, 7);
    assert_eq!(u.cross(&v), 29);
    assert_eq!(v.cross(&u), -29);
    assert_eq!(u.cross(&v), -v.cross(&u));
}

#[test]
fn cross_of_parallel_vectors_is_zero() {
    let u = Vector::new(2, -3);
    assert_eq!(u.cross(&u), 0);
    assert_eq!(u.cross(&u.scale(-4)), 0);
}

#[test]
fn cross_at_extreme_components() {
    let u = Vector::new(i64::MIN, i64::MAX);
    let v = Vector::new(i64::MAX, i64::MIN);
    let expected = (i64::MIN as i128) * (i64::MIN as i128) - (i64::MAX as i128) * (i64::MAX as i128);
    assert_eq!(u.cross(&v), expected);
}

#[test]
fn length_squared_values() {
    assert_eq!(Vector::new(3, 4).length_squared(), 25);
    assert_eq!(Vector::new(-5, 0).length_squared(), 25);
    assert_eq!(Vector::new(0, 0).length_squared(), 0);
    assert_eq!(Vector::new(0, -1).length_squared(), 1);
    assert_eq!(Vector::new(i64::MIN, i64::MIN).length_squared(), 1u128 << 127);
}

#[test]
fn point_arithmetic() {
    let p = Point::new(7, -2);
    let q = Point::new(3, 5);
    let d = p.sub(q);
    assert_eq!(d, Vector::new(4, -7));
    assert_eq!(q.add(d), p);
    assert_eq!(Point::new(i32::MAX, i32::MIN).sub(Point::new(i32::MIN, i32::MAX)), Vector::new(4294967295, -4294967295));
    assert_eq!(Vector::new(4, -7).scale(3), Vector::new(12, -21));
}

#[test]
fn intersection_param_of_crossing_lines() {
    let l1 = Line::new(Point::new(0, 0), Vector::new(1, 0));
    let l2 = Line::new(Point::new(5, -3), Vector::new(0, 1));
    assert_eq!(l1.intersection_param(&l2), Some(Param { num: 5, den: 1 }));
    let l3 = Line::new(Point::new(5, -3), Vector::new(0, -2));
    assert_eq!(l1.intersection_param(&l3), Some(Param { num: -10, den: -2 }));
}

#[test]
fn intersection_param_of_parallel_lines_is_none() {
    let l1 = Line::new(Point::new(0, 0), Vector::new(2, 1));
    let l2 = Line::new(Point::new(0, 5), Vector::new(-4, -2));
    assert_eq!(l1.intersection_param(&l2), None);
    assert_eq!(l1.intersection_param(&l1), None);
}

#[test]
fn param_unit_interval() {
    assert!(Param { num: 0, den: 3 }.in_unit_interval());
    assert!(Param { num: 3, den: 3 }.in_unit_interval());
    assert!(Param { num: -2, den: -3 }.in_unit_interval());
    assert!(!Param { num: 4, den: 3 }.in_unit_interval());
    assert!(!Param { num: -1, den: 3 }.in_unit_interval());
    assert!(!Param { num: 1, den: -3 }.in_unit_interval());
    assert!(!Param { num: -4, den: -3 }.in_unit_interval());
}
