use route_guide::geometry::in_range;
use route_guide::messages::{Point, Rectangle};

fn point(latitude: i32, longitude: i32) -> Point {
    Point { latitude, longitude }
}

fn rectangle(low: Point, high: Point) -> Rectangle {
    Rectangle { low: Some(low), high: Some(high) }
}

#[test]
fn inside_and_outside() {
    let bounds = rectangle(point(0, 0), point(10, 20));
    assert!(in_range(&point(5, 5), &bounds));
    assert!(!in_range(&point(11, 5), &bounds));
    assert!(!in_range(&point(-1, 5), &bounds));
    assert!(!in_range(&point(5, 21), &bounds));
    assert!(!in_range(&point(5, -1), &bounds));
}

#[test]
fn latitude_and_longitude_are_not_mixed_up() {
    let bounds = rectangle(point(0, 0), point(10, 20));
    assert!(in_range(&point(5, 15), &bounds));
    assert!(!in_range(&point(15, 5), &bounds));
}

#[test]
fn edges_belong_to_the_rectangle() {
    let bounds = rectangle(point(-3, 4), point(7, 9));
    assert!(in_range(&point(-3, 4), &bounds));
    assert!(in_range(&point(7, 9), &bounds));
    assert!(in_range(&point(-3, 9), &bounds));
    assert!(in_range(&point(7, 4), &bounds));
}

#[test]
fn corners_may_come_in_any_order() {
    let one = rectangle(point(0, 0), point(10, 20));
    let other = rectangle(point(10, 20), point(0, 0));
    let crossed = rectangle(point(10, 0), point(0, 20));
    for latitude in -1..12 {
        for longitude in -1..22 {
            let p = point(latitude, longitude);
            assert_eq!(in_range(&p, &one), in_range(&p, &other));
            assert_eq!(in_range(&p, &one), in_range(&p, &crossed));
        }
    }
}

#[test]
fn single_point_rectangle_covers_one_point() {
    let bounds = rectangle(point(3, 3), point(3, 3));
    assert!(in_range(&point(3, 3), &bounds));
    assert!(!in_range(&point(3, 4), &bounds));
    assert!(!in_range(&point(2, 3), &bounds));
}

#[test]
fn whole_range_of_numbers() {
    let bounds = rectangle(point(i32::MIN, i32::MIN), point(i32::MAX, i32::MAX));
    assert!(in_range(&point(i32::MIN, i32::MAX), &bounds));
    assert!(in_range(&point(0, 0), &bounds));
}

#[test]
fn region_between_covered_points_is_covered() {
    let bounds = rectangle(point(0, 0), point(10, 10));
    let inner = rectangle(point(2, 3), point(8, 9));
    let p = point(5, 5);
    assert!(in_range(&point(2, 3), &bounds) && in_range(&point(8, 9), &bounds));
    assert!(in_range(&p, &inner) && in_range(&p, &bounds));
}
