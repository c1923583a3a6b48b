use sizzle::colour::{blend, bracket, fraction, interpolate_colour, Colour};
use sizzle::fixed::{Point, ONE};
use sizzle::path::interpolate_path;

fn rgba(r: i64, g: i64, b: i64, a: i64) -> Colour {
    Colour { r, g, b, a }
}

#[test]
fn halfway_gives_the_exact_midpoint() {
    let c0 = rgba(0, 200_000, 1_000_000, 1_000_000);
    let c1 = rgba(1_000_000, 400_000, 0, 500_000);
    let mid = interpolate_colour(&[(c0, 0), (c1, ONE)], ONE / 2);
    assert_eq!(mid, rgba(500_000, 300_000, 500_000, 750_000));
}

#[test]
fn midpoint_of_an_odd_sum_rounds_down() {
    let mid = interpolate_colour(&[(rgba(0, 0, 0, 0), 0), (rgba(1, 3, 5, 7), ONE)], ONE / 2);
    assert_eq!(mid, rgba(0, 1, 2, 3));
}

#[test]
fn below_the_first_key_the_first_colour_is_kept() {
    let c0 = rgba(1, 2, 3, 4);
    let c1 = rgba(5, 6, 7, 8);
    assert_eq!(interpolate_colour(&[(c0, 0), (c1, ONE)], -5 * ONE), c0);
    assert_eq!(interpolate_colour(&[(c0, 0), (c1, ONE)], 0), c0);
}

#[test]
fn above_the_last_key_the_last_colour_is_kept() {
    let c0 = rgba(1, 2, 3, 4);
    let c1 = rgba(5, 6, 7, 8);
    assert_eq!(interpolate_colour(&[(c0, 0), (c1, ONE)], ONE + 1), c1);
    assert_eq!(interpolate_colour(&[(c0, 0), (c1, ONE)], i64::MAX), c1);
    assert_eq!(interpolate_colour(&[(c0, 0), (c1, ONE)], ONE), c1);
}

#[test]
fn a_single_stop_is_the_colour_everywhere() {
    let c = rgba(9, 8, 7, 6);
    assert_eq!(interpolate_colour(&[(c, 500_000)], 0), c);
    assert_eq!(interpolate_colour(&[(c, 500_000)], 500_000), c);
    assert_eq!(interpolate_colour(&[(c, 500_000)], ONE), c);
}

#[test]
fn three_stops_mix_the_two_around_the_point() {
    let pink = rgba(900_000, 400_000, 600_000, ONE);
    let brown = rgba(800_000, 400_000, 100_000, ONE);
    let black = rgba(300_000, 200_000, 100_000, ONE);
    let stops = [(pink, 0), (brown, ONE), (black, 1_400_000)];
    assert_eq!(interpolate_colour(&stops, 250_000), rgba(875_000, 400_000, 475_000, ONE));
    assert_eq!(interpolate_colour(&stops, 1_200_000), rgba(550_000, 300_000, 100_000, ONE));
    assert_eq!(interpolate_colour(&stops, 1_400_000), black);
    assert_eq!(interpolate_colour(&stops, 2_000_000), black);
}

#[test]
fn bracket_finds_the_last_below_and_the_first_at_or_above() {
    let keys = vec![0, 100, 200, 300];
    assert_eq!(bracket(&keys, 150), (Some(1), Some(2)));
    assert_eq!(bracket(&keys, 100), (Some(0), Some(1)));
    assert_eq!(bracket(&keys, 0), (None, Some(0)));
    assert_eq!(bracket(&keys, 301), (Some(3), None));
    assert_eq!(bracket(&Vec::new(), 5), (None, None));
    let unordered = vec![300, 0, 200, 100];
    assert_eq!(bracket(&unordered, 150), (Some(3), Some(0)));
}

#[test]
fn fraction_and_blend_are_exact() {
    assert_eq!(fraction(0, ONE, 250_000), 250_000);
    assert_eq!(fraction(100, 300, 150), 250_000);
    assert_eq!(fraction(0, 3, 1), 333_333);
    assert_eq!(fraction(i64::MIN, i64::MAX, i64::MAX), ONE);
    assert_eq!(blend(0, 1_000, 250_000), 250);
    assert_eq!(blend(1_000, 0, 250_000), 750);
    assert_eq!(blend(i64::MAX, i64::MAX, 123_456), i64::MAX);
    assert_eq!(blend(i64::MIN, i64::MAX, 0), i64::MIN);
    assert_eq!(blend(-10, 10, 500_000), 0);
    assert_eq!(blend(-3, 0, 500_000), -2);
}

#[test]
fn a_path_is_followed_in_straight_lines() {
    let a = Point::new(0, 0);
    let b = Point::new(100, -50);
    let c = Point::new(100, 50);
    let path = [(a, 0), (b, 500_000), (c, ONE)];
    assert_eq!(interpolate_path(&path, 250_000), Point::new(50, -25));
    assert_eq!(interpolate_path(&path, 750_000), Point::new(100, 0));
    assert_eq!(interpolate_path(&path, 500_000), b);
    assert_eq!(interpolate_path(&path, -1), a);
    assert_eq!(interpolate_path(&path, 0), a);
    assert_eq!(interpolate_path(&path, ONE + 1), c);
}
