use sizzle::fixed::Point;
use sizzle::geometry::Rectangle;

fn rect(x: i64, y: i64, w: i64, h: i64) -> Rectangle {
    Rectangle { x, y, w, h }
}

#[test]
fn new_takes_corner_and_size() {
    let r = Rectangle::new(Point::new(1, 2), Point::new(3, 4));
    assert_eq!(r, rect(1, 2, 3, 4));
    assert_eq!(r.as_array(), [1, 2, 3, 4]);
}

#[test]
fn centered_box_holds_its_centre() {
    let p = Point::new(10_000_000, -4_000_000);
    let r = Rectangle::centered(p, Point::new(53_000_000, 53_000_000));
    assert_eq!(r, rect(-16_500_000, -30_500_000, 53_000_000, 53_000_000));
    assert!(r.intersect_point(p));
    assert_eq!(r.centre(), p);
}

#[test]
fn centered_box_of_two_units_holds_its_centre() {
    let p = Point::new(0, 0);
    assert!(Rectangle::centered(p, Point::new(2, 2)).intersect_point(p));
}

#[test]
fn centered_box_of_one_unit_has_no_room_for_its_centre() {
    let p = Point::new(0, 0);
    let r = Rectangle::centered(p, Point::new(1, 1));
    assert_eq!(r, rect(0, 0, 1, 1));
    assert!(!r.intersect_point(p));
}

#[test]
fn centered_rounds_half_of_an_odd_size_down() {
    let r = Rectangle::centered(Point::new(10, 10), Point::new(5, 7));
    assert_eq!(r, rect(8, 7, 5, 7));
}

#[test]
fn points_on_the_edge_are_outside() {
    let r = rect(0, 0, 10, 10);
    assert!(r.intersect_point(Point::new(5, 5)));
    assert!(r.intersect_point(Point::new(1, 9)));
    assert!(!r.intersect_point(Point::new(0, 5)));
    assert!(!r.intersect_point(Point::new(10, 5)));
    assert!(!r.intersect_point(Point::new(5, 0)));
    assert!(!r.intersect_point(Point::new(5, 10)));
    assert!(!r.intersect_point(Point::new(-1, 5)));
}

#[test]
fn intersect_point_does_not_overflow_at_the_ends() {
    let r = rect(i64::MAX - 1, i64::MAX - 1, i64::MAX, i64::MAX);
    assert!(r.intersect_point(Point::new(i64::MAX, i64::MAX)));
    let s = rect(i64::MIN, i64::MIN, 2, 2);
    assert!(s.intersect_point(Point::new(i64::MIN + 1, i64::MIN + 1)));
}

#[test]
fn boxes_that_only_touch_do_not_overlap() {
    let a = rect(0, 0, 10, 10);
    assert!(a.intersect_rect(&rect(5, 5, 10, 10)));
    assert!(!a.intersect_rect(&rect(10, 0, 10, 10)));
    assert!(!a.intersect_rect(&rect(0, 10, 10, 10)));
    assert!(!a.intersect_rect(&rect(-10, 0, 10, 10)));
    assert!(a.intersect_rect(&rect(-9, -9, 10, 10)));
}

#[test]
fn overlap_is_symmetric() {
    let boxes = [
        rect(0, 0, 10, 10),
        rect(5, 5, 10, 10),
        rect(10, 0, 3, 3),
        rect(-4, 2, 5, 1),
        rect(2, 2, 0, 0),
        rect(100, 100, 1, 1),
    ];
    for a in boxes.iter() {
        for b in boxes.iter() {
            assert_eq!(a.intersect_rect(b), b.intersect_rect(a));
        }
    }
}

#[test]
fn union_reaches_as_far_as_both() {
    let a = rect(0, 0, 10, 10);
    let b = rect(-5, 4, 8, 20);
    let u = a.union(&b);
    assert_eq!(u, rect(-5, 0, 15, 24));
    assert_eq!(b.union(&a), u);
    assert_eq!(a.union(&a), a);
}

#[test]
fn union_with_a_box_inside_changes_nothing() {
    let a = rect(0, 0, 10, 10);
    assert_eq!(a.union(&rect(2, 2, 3, 3)), a);
}

#[test]
fn union_saturates_where_the_width_does_not_fit() {
    let a = rect(i64::MIN, 0, 1, 1);
    let b = rect(i64::MAX - 1, 0, 1, 1);
    let u = a.union(&b);
    assert_eq!(u, rect(i64::MIN, 0, i64::MAX, 1));
}

#[test]
fn centre_of_a_cornered_box() {
    assert_eq!(rect(10, 20, 4, 6).centre(), Point::new(12, 23));
    assert_eq!(rect(10, 20, 5, 7).centre(), Point::new(12, 23));
}

#[test]
fn shift_moves_the_corner_only() {
    assert_eq!(rect(1, 2, 3, 4).shift(Point::new(10, -10)), rect(11, -8, 3, 4));
    assert_eq!(rect(i64::MAX, 0, 3, 4).shift(Point::new(10, 0)), rect(i64::MAX, 0, 3, 4));
}
