use sizzle::chance::unit_draw;
use sizzle::fixed::{
    clamp, direction, floor_div, half, int_sqrt, narrow, sat_add, sat_mul, sat_sub,
    wide_mul, Point, ONE,
};

#[test]
fn sums_saturate() {
    assert_eq!(sat_add(1, 2), 3);
    assert_eq!(sat_add(i64::MAX, 1), i64::MAX);
    assert_eq!(sat_add(i64::MIN, -1), i64::MIN);
    assert_eq!(sat_sub(5, 7), -2);
    assert_eq!(sat_sub(i64::MIN, 1), i64::MIN);
    assert_eq!(sat_sub(0, i64::MIN), i64::MAX);
}

#[test]
fn narrow_clamps_to_the_range() {
    assert_eq!(narrow(12), 12);
    assert_eq!(narrow(i64::MAX as i128 + 1), i64::MAX);
    assert_eq!(narrow(i64::MIN as i128 - 1), i64::MIN);
}

#[test]
fn products_are_fixed_point_and_round_down() {
    assert_eq!(sat_mul(ONE, ONE), ONE);
    assert_eq!(sat_mul(500_000, 500_000), 250_000);
    assert_eq!(sat_mul(16_000, 50_000), 800);
    assert_eq!(sat_mul(1, 1), 0);
    assert_eq!(sat_mul(-1, 1), -1);
    assert_eq!(sat_mul(-3 * ONE, ONE / 2), -1_500_000);
    assert_eq!(sat_mul(i64::MAX, i64::MAX), i64::MAX);
    assert_eq!(sat_mul(i64::MIN, i64::MAX), i64::MIN);
}

#[test]
fn wide_products_are_exact() {
    assert_eq!(wide_mul(i64::MIN, i64::MIN), 1i128 << 126);
    assert_eq!(wide_mul(-3, 7), -21);
}

#[test]
fn floor_division_rounds_towards_minus_infinity() {
    assert_eq!(floor_div(7, 2), 3);
    assert_eq!(floor_div(-7, 2), -4);
    assert_eq!(floor_div(-8, 2), -4);
    assert_eq!(floor_div(-1, 1_000_000), -1);
    assert_eq!(floor_div(0, 5), 0);
}

#[test]
fn half_rounds_down() {
    assert_eq!(half(53_000_000), 26_500_000);
    assert_eq!(half(5), 2);
    assert_eq!(half(-5), -3);
    assert_eq!(half(i64::MIN), i64::MIN / 2);
}

#[test]
fn clamp_holds_between_the_bounds() {
    assert_eq!(clamp(5, 0, 10), 5);
    assert_eq!(clamp(-5, 0, 10), 0);
    assert_eq!(clamp(15, 0, 10), 10);
    assert_eq!(clamp(5, 10, 0), 10);
}

#[test]
fn square_roots_round_down() {
    assert_eq!(int_sqrt(0), 0);
    assert_eq!(int_sqrt(1), 1);
    assert_eq!(int_sqrt(3), 1);
    assert_eq!(int_sqrt(4), 2);
    assert_eq!(int_sqrt(99), 9);
    assert_eq!(int_sqrt(100), 10);
    assert_eq!(int_sqrt(u64::MAX), 0xffff_ffff);
    assert_eq!(int_sqrt(1u64 << 62), 1u64 << 31);
}

#[test]
fn direction_along_an_axis_has_length_one() {
    let entry = Point::new(720_000_000, 50_000_000);
    let head = Point::new(180_000_000, 50_000_000);
    assert_eq!(direction(entry, head), Point::new(-ONE, 0));
    assert_eq!(direction(head, entry), Point::new(ONE, 0));
    assert_eq!(direction(Point::new(0, 0), Point::new(0, -7)), Point::new(0, -ONE));
}

#[test]
fn direction_of_a_three_four_five_triangle() {
    assert_eq!(direction(Point::new(0, 0), Point::new(3, 4)), Point::new(600_000, 800_000));
    assert_eq!(
        direction(Point::new(10, 10), Point::new(10 - 4_000, 10 + 3_000)),
        Point::new(-800_000, 600_000)
    );
}

#[test]
fn direction_of_no_step_is_zero() {
    assert_eq!(direction(Point::new(5, 5), Point::new(5, 5)), Point::new(0, 0));
}

#[test]
fn direction_across_the_whole_range() {
    let d = direction(Point::new(i64::MIN, i64::MIN), Point::new(i64::MAX, i64::MIN));
    assert_eq!(d, Point::new(ONE, 0));
}

#[test]
fn points_shift_and_drag() {
    let p = Point::new(10, 20);
    assert_eq!(p.shift(Point::new(-3, 4)), Point::new(7, 24));
    assert_eq!(Point::new(5, 5).step(Point::new(2, 7)), Point::new(3, -2));
    assert_eq!(p.drag(Point::new(100, 100), Point::new(105, 90)), Point::new(15, 10));
    assert_eq!(Point::new(i64::MAX, 0).shift(Point::new(1, 0)), Point::new(i64::MAX, 0));
}

#[test]
fn unit_draws_lie_below_one_and_vary() {
    let mut seen_other_than_first = false;
    let first = unit_draw();
    for _ in 0..200 {
        let r = unit_draw();
        assert!(0 <= r && r < ONE);
        if r != first {
            seen_other_than_first = true;
        }
    }
    assert!(seen_other_than_first);
}
