use anodium::geometry::{div_trunc, half, Point, Rectangle, Size};

fn rect(x: i32, y: i32, w: i32, h: i32) -> Rectangle {
    Rectangle::from_loc_and_size(Point::new(x, y), Size::new(w, h))
}

#[test]
fn contains_takes_left_and_top_edges_only() {
    let r = rect(10, 20, 30, 40);
    assert!(r.contains(Point::new(10, 20)));
    assert!(r.contains(Point::new(39, 59)));
    assert!(!r.contains(Point::new(40, 20)));
    assert!(!r.contains(Point::new(10, 60)));
    assert!(!r.contains(Point::new(9, 20)));
}

#[test]
fn contains_saturates_at_the_edge_of_the_range() {
    let r = rect(i32::MAX - 5, 0, 100, 10);
    assert!(r.contains(Point::new(i32::MAX - 1, 5)));
    assert!(!r.contains(Point::new(i32::MAX, 5)));
}

#[test]
fn contains_with_negative_size_holds_nothing() {
    let r = rect(0, 0, -5, 10);
    assert!(!r.contains(Point::new(0, 0)));
    assert!(!r.contains(Point::new(-2, 3)));
}

#[test]
fn rectangle_holds_its_corner_but_not_its_far_edges() {
    let r = rect(-3, 7, 1, 1);
    assert!(r.contains(Point::new(-3, 7)));
    assert!(!r.contains(Point::new(-2, 7)));
    assert!(!r.contains(Point::new(-3, 8)));
}

#[test]
fn division_rounds_towards_zero() {
    assert_eq!(half(7), 3);
    assert_eq!(half(-7), -3);
    assert_eq!(half(i32::MIN), i32::MIN / 2);
    assert_eq!(div_trunc(-10, 3), -3);
    assert_eq!(div_trunc(10, 3), 3);
    assert_eq!(div_trunc(i32::MIN, 1), i32::MIN);
}
