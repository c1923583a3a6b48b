use sizzle::bread::Bread;
use sizzle::cookable::Cookable;
use sizzle::fixed::{Point, ONE};
use sizzle::geometry::Rectangle;
use sizzle::ingredient::{find_condiment, find_kind, next_filling, Ingredient};
use sizzle::kinds::{Condiment, Filling, Portion, Topping};
use sizzle::onion::{Onion, OnionPiece};
use sizzle::squirt::{Blob, BlobRoll, Bottle, Squirt, SquirtRoll};

fn blob_roll(across: i64, down: i64, size: i64) -> BlobRoll {
    BlobRoll { across, down, size }
}

fn even_roll(count: u32) -> SquirtRoll {
    SquirtRoll { count, blobs: [blob_roll(500_000, 500_000, 0); 4] }
}

fn piece() -> OnionPiece {
    OnionPiece::new(
        Rectangle { x: -5_000_000, y: -5_000_000, w: 10_000_000, h: 10_000_000 },
        0,
        1_000_000,
        2_000_000,
        Rectangle { x: -4_000_000, y: -4_000_000, w: 8_000_000, h: 8_000_000 },
    )
}

fn onion(pos: Point, cooked: i64) -> Ingredient {
    Ingredient::Onion(Onion::with_cooked(pos, cooked, [[piece(); 3]; 4]))
}

fn sausage(pos: Point) -> Ingredient {
    Ingredient::Cookable(Cookable::with_cooked(Filling::Sausage, pos, ONE))
}

fn patty(pos: Point) -> Ingredient {
    Ingredient::Cookable(Cookable::with_cooked(Filling::VeggiePatty, pos, ONE))
}

fn squirt(c: Condiment, pos: Point) -> Ingredient {
    Ingredient::Squirt(Squirt::with_blobs(c, pos, &even_roll(4)))
}

fn kinds(bread: &Bread) -> Vec<Topping> {
    bread.toppings.iter().map(|t| t.topping()).collect()
}

fn place(item: &Ingredient) -> Point {
    match item {
        Ingredient::Cookable(c) => c.pos,
        Ingredient::Onion(o) => o.pos,
        Ingredient::Squirt(s) => s.pos,
    }
}

#[test]
fn the_first_blob_of_sauce_lies_up_and_left() {
    let s = Squirt::with_blobs(Condiment::Sauce, Point::new(0, 0), &even_roll(4));
    assert_eq!(s.count, 4);
    assert_eq!(s.condiment, Condiment::Sauce);
    assert_eq!(s.pos, Point::new(0, 0));
    assert_eq!(s.blobs[0], Blob { offset: Point::new(-5_300_000, -5_300_000), radius: 5_300_000 });
    assert_eq!(s.blobs[1], s.blobs[0]);
    assert_eq!(s.blobs[3], s.blobs[0]);
    assert_eq!(s.blobs[4], Blob { offset: Point::new(0, 0), radius: 0 });
    assert_eq!(
        s.bounds(),
        Rectangle { x: -10_600_000, y: -10_600_000, w: 10_600_000, h: 10_600_000 }
    );
    assert_eq!(s.topping(), Some(Topping::Condiment(Condiment::Sauce)));
}

#[test]
fn mustard_lies_down_and_right() {
    let s = Squirt::with_blobs(Condiment::Mustard, Point::new(1_000_000, 2_000_000), &even_roll(4));
    assert_eq!(s.blobs[0], Blob { offset: Point::new(5_300_000, 5_300_000), radius: 5_300_000 });
    assert_eq!(s.blobs[2], Blob { offset: Point::new(5_300_000, 5_300_000), radius: 5_300_000 });
    assert_eq!(s.bounds(), Rectangle { x: 1_000_000, y: 2_000_000, w: 10_600_000, h: 10_600_000 });
}

#[test]
fn later_blobs_scatter_as_the_draws_say() {
    let roll = SquirtRoll {
        count: 5,
        blobs: [
            blob_roll(0, 999_999, 500_000),
            blob_roll(250_000, 750_000, 999_999),
            blob_roll(500_000, 500_000, 0),
            blob_roll(999_999, 0, 0),
        ],
    };
    let s = Squirt::with_blobs(Condiment::Sauce, Point::new(0, 0), &roll);
    assert_eq!(s.count, 5);
    assert_eq!(s.blobs[1], Blob { offset: Point::new(-10_600_000, -27), radius: 7_950_000 });
    assert_eq!(s.blobs[2], Blob { offset: Point::new(-7_950_000, -2_650_000), radius: 10_599_973 });
    assert_eq!(s.blobs[4], Blob { offset: Point::new(-27, -10_600_000), radius: 5_300_000 });
    assert_eq!(
        s.bounds(),
        Rectangle { x: -18_550_000, y: -15_900_000, w: 23_849_973, h: 23_849_973 }
    );
}

#[test]
fn a_count_below_five_gives_four_blobs() {
    let roll = SquirtRoll { count: 0, blobs: [blob_roll(0, 0, 0); 4] };
    assert_eq!(Squirt::with_blobs(Condiment::Sauce, Point::new(0, 0), &roll).count, 4);
    let many = SquirtRoll { count: 77, blobs: [blob_roll(0, 0, 0); 4] };
    assert_eq!(Squirt::with_blobs(Condiment::Sauce, Point::new(0, 0), &many).count, 5);
}

#[test]
fn a_blob_lies_where_the_squirt_is() {
    let b = Blob { offset: Point::new(1_000_000, -1_000_000), radius: 2_000_000 };
    assert_eq!(
        b.bounds(Point::new(10_000_000, 10_000_000)),
        Rectangle { x: 9_000_000, y: 7_000_000, w: 4_000_000, h: 4_000_000 }
    );
}

#[test]
fn a_random_squirt_has_four_or_five_blobs_near_its_side() {
    let mut seen = [false, false];
    for _ in 0..200 {
        let s = Squirt::new(Condiment::Mustard, Point::new(0, 0));
        assert!(s.count == 4 || s.count == 5);
        seen[s.count - 4] = true;
        for i in 0..s.count {
            let b = s.blobs[i];
            assert!(0 <= b.offset.x && b.offset.x <= 10_600_000);
            assert!(0 <= b.offset.y && b.offset.y <= 10_600_000);
            assert!(5_300_000 <= b.radius && b.radius <= 10_600_000);
            let r = b.bounds(s.pos);
            assert!(s.bounds().x <= r.x && r.x + r.w <= s.bounds().x + s.bounds().w);
            assert!(s.bounds().y <= r.y && r.y + r.h <= s.bounds().y + s.bounds().h);
        }
    }
    assert!(seen[0] && seen[1]);
}

#[test]
fn squirt_rolls_are_in_range() {
    for _ in 0..50 {
        let r = SquirtRoll::draw();
        assert!(r.count == 4 || r.count == 5);
        for b in r.blobs.iter() {
            assert!(0 <= b.across && b.across < ONE);
            assert!(0 <= b.down && b.down < ONE);
            assert!(0 <= b.size && b.size < ONE);
        }
    }
}

#[test]
fn a_squirt_is_dragged_with_its_box() {
    let mut s = Squirt::with_blobs(Condiment::Sauce, Point::new(0, 0), &even_roll(4));
    s.drag(Point::new(0, 0), Point::new(600_000, 600_000));
    assert_eq!(s.pos, Point::new(600_000, 600_000));
    assert_eq!(s.bounds(), Rectangle { x: -10_000_000, y: -10_000_000, w: 10_600_000, h: 10_600_000 });
    assert!(s.select(Point::new(-5_000_000, -5_000_000)));
    assert!(!s.select(Point::new(5_000_000, 5_000_000)));
    s.set_pos(Point::new(0, 0));
    assert_eq!(s.bounds(), Rectangle { x: -10_600_000, y: -10_600_000, w: 10_600_000, h: 10_600_000 });
}

#[test]
fn a_bottle_is_tall_and_thin() {
    let mut b = Bottle::new(Condiment::Mustard, Point::new(45_000_000, 180_000_000));
    assert_eq!(b.bounds(), Rectangle { x: 35_000_000, y: 140_000_000, w: 20_000_000, h: 80_000_000 });
    assert!(b.select(Point::new(45_000_000, 150_000_000)));
    assert!(!b.select(Point::new(60_000_000, 150_000_000)));
    assert_eq!(b.topping(), Some(Topping::Condiment(Condiment::Mustard)));
    b.drag(Point::new(0, 0), Point::new(1, 2));
    assert_eq!(b.pos, Point::new(45_000_001, 180_000_002));
    b.set_pos(Point::new(7, 8));
    assert_eq!(b.pos, Point::new(7, 8));
}

#[test]
fn a_bottle_leaves_a_squirt_once() {
    let bottle = Bottle::new(Condiment::Sauce, Point::new(500, 500));
    let none: Vec<Ingredient> = Vec::new();
    let s = bottle.add_to_with(Point::new(10, 20), &none, &even_roll(5)).unwrap();
    assert_eq!(s, Squirt::with_blobs(Condiment::Sauce, Point::new(10, 20), &even_roll(5)));
    let some = vec![Ingredient::Squirt(s)];
    assert_eq!(bottle.add_to_with(Point::new(10, 20), &some, &even_roll(5)), None);
    assert!(bottle.add_to(Point::new(10, 20), &some).is_none());
    let other = Bottle::new(Condiment::Mustard, Point::new(500, 500));
    let m = other.add_to(Point::new(10, 20), &some).unwrap();
    assert_eq!(m.condiment, Condiment::Mustard);
    assert_eq!(m.pos, Point::new(10, 20));
    assert_eq!(bottle.pos, Point::new(500, 500));
}

#[test]
fn kinds_are_found_among_the_toppings() {
    let p = Point::new(0, 0);
    let list = vec![squirt(Condiment::Sauce, p), onion(p, 0), sausage(p), patty(p)];
    assert!(find_kind(&list, Topping::Onion));
    assert!(find_kind(&list, Topping::Filling(Filling::VeggiePatty)));
    assert!(find_condiment(&list, Condiment::Sauce));
    assert!(!find_condiment(&list, Condiment::Mustard));
    assert_eq!(next_filling(&list, 0), Some(2));
    assert_eq!(next_filling(&list, 3), Some(3));
    assert_eq!(next_filling(&list, 4), None);
    assert_eq!(next_filling(&list, 9), None);
}

#[test]
fn an_ingredient_shows_its_portion() {
    let p = Point::new(0, 0);
    let mut c = Cookable::with_cooked(Filling::Sausage, p, 900_000);
    c.bottom_cooked = 1_100_000;
    assert_eq!(
        Ingredient::Cookable(c).portion(),
        Portion { kind: Topping::Filling(Filling::Sausage), rare: 900_000, done: 1_100_000 }
    );
    assert_eq!(onion(p, 850_000).portion(), Portion { kind: Topping::Onion, rare: 850_000, done: 850_000 });
    assert_eq!(
        squirt(Condiment::Mustard, p).portion(),
        Portion { kind: Topping::Condiment(Condiment::Mustard), rare: 0, done: 0 }
    );
    assert_eq!(squirt(Condiment::Mustard, p).cooked(), (0, 0));
}

#[test]
fn the_first_filling_lies_in_the_middle() {
    let mut bread = Bread::new(Point::new(100_000_000, 100_000_000));
    assert!(bread.add(sausage(Point::new(3, 4))).is_none());
    assert_eq!(kinds(&bread), vec![Topping::Filling(Filling::Sausage)]);
    assert_eq!(place(&bread.toppings[0]), Point::new(100_000_000, 100_000_000));
}

#[test]
fn two_sausages_lie_side_by_side() {
    let mut bread = Bread::new(Point::new(100_000_000, 100_000_000));
    assert!(bread.add(sausage(Point::new(3, 4))).is_none());
    assert!(bread.add(sausage(Point::new(5, 6))).is_none());
    assert_eq!(bread.toppings.len(), 2);
    assert_eq!(place(&bread.toppings[0]), Point::new(90_000_000, 100_000_000));
    assert_eq!(place(&bread.toppings[1]), Point::new(110_000_000, 100_000_000));
}

#[test]
fn a_third_filling_is_refused() {
    let mut bread = Bread::new(Point::new(0, 0));
    bread.add(sausage(Point::new(3, 4)));
    bread.add(sausage(Point::new(3, 4)));
    let third = sausage(Point::new(7, 7));
    assert_eq!(bread.add(third), Some(third));
    assert_eq!(bread.toppings.len(), 2);
    assert_eq!(place(&bread.toppings[0]), Point::new(-10_000_000, 0));
    assert_eq!(place(&bread.toppings[1]), Point::new(10_000_000, 0));
}

#[test]
fn two_sausages_then_a_patty_is_refused() {
    let mut bread = Bread::new(Point::new(0, 0));
    bread.add(sausage(Point::new(3, 4)));
    bread.add(sausage(Point::new(3, 4)));
    let p = patty(Point::new(7, 7));
    assert_eq!(bread.add(p), Some(p));
    assert_eq!(bread.toppings.len(), 2);
}

#[test]
fn a_patty_stays_alone() {
    let mut bread = Bread::new(Point::new(0, 0));
    assert!(bread.add(patty(Point::new(7, 7))).is_none());
    let s = sausage(Point::new(1, 1));
    assert_eq!(bread.add(s), Some(s));
    let p = patty(Point::new(2, 2));
    assert_eq!(bread.add(p), Some(p));
    assert_eq!(kinds(&bread), vec![Topping::Filling(Filling::VeggiePatty)]);
    assert_eq!(place(&bread.toppings[0]), Point::new(0, 0));
}

#[test]
fn a_patty_does_not_join_a_sausage() {
    let mut bread = Bread::new(Point::new(0, 0));
    bread.add(sausage(Point::new(3, 4)));
    let p = patty(Point::new(7, 7));
    assert_eq!(bread.add(p), Some(p));
    assert_eq!(place(&bread.toppings[0]), Point::new(0, 0));
}

#[test]
fn a_second_onion_is_refused() {
    let mut bread = Bread::new(Point::new(50_000_000, 50_000_000));
    assert!(bread.add(onion(Point::new(0, 0), 0)).is_none());
    assert_eq!(place(&bread.toppings[0]), Point::new(50_000_000, 50_000_000));
    assert_eq!(
        bread.toppings[0].bounds(),
        Rectangle { x: 46_000_000, y: 46_000_000, w: 8_000_000, h: 8_000_000 }
    );
    let second = onion(Point::new(1, 1), 5);
    assert_eq!(bread.add(second), Some(second));
    assert_eq!(kinds(&bread), vec![Topping::Onion]);
}

#[test]
fn the_same_condiment_twice_is_refused() {
    let mut bread = Bread::new(Point::new(50_000_000, 50_000_000));
    assert!(bread.add(squirt(Condiment::Sauce, Point::new(0, 0))).is_none());
    let again = squirt(Condiment::Sauce, Point::new(9, 9));
    assert_eq!(bread.add(again), Some(again));
    assert!(bread.add(squirt(Condiment::Mustard, Point::new(0, 0))).is_none());
    let more = squirt(Condiment::Mustard, Point::new(9, 9));
    assert_eq!(bread.add(more), Some(more));
    assert_eq!(
        kinds(&bread),
        vec![Topping::Condiment(Condiment::Sauce), Topping::Condiment(Condiment::Mustard)]
    );
    assert_eq!(place(&bread.toppings[1]), Point::new(50_000_000, 50_000_000));
}

#[test]
fn a_full_bread_carries_five_toppings() {
    let p = Point::new(0, 0);
    let mut bread = Bread::new(p);
    for item in [
        sausage(p),
        onion(p, 0),
        squirt(Condiment::Sauce, p),
        sausage(p),
        squirt(Condiment::Mustard, p),
    ] {
        assert!(bread.add(item).is_none());
    }
    for item in [
        sausage(p),
        patty(p),
        onion(p, 0),
        squirt(Condiment::Sauce, p),
        squirt(Condiment::Mustard, p),
    ] {
        assert!(bread.add(item).is_some());
    }
    assert_eq!(bread.toppings.len(), 5);
    assert_eq!(place(&bread.toppings[0]), Point::new(-10_000_000, 0));
    assert_eq!(place(&bread.toppings[3]), Point::new(10_000_000, 0));
    assert_eq!(bread.portions().len(), 5);
    assert_eq!(bread.portions()[1], Portion { kind: Topping::Onion, rare: 0, done: 0 });
}

#[test]
fn bread_takes_its_toppings_along() {
    let mut bread = Bread::new(Point::new(0, 0));
    bread.add(sausage(Point::new(0, 0)));
    bread.add(sausage(Point::new(0, 0)));
    bread.add(onion(Point::new(0, 0), 0));
    bread.drag(Point::new(5, 5), Point::new(1_000_005, 2_000_005));
    assert_eq!(bread.pos, Point::new(1_000_000, 2_000_000));
    assert_eq!(place(&bread.toppings[0]), Point::new(-9_000_000, 2_000_000));
    assert_eq!(place(&bread.toppings[1]), Point::new(11_000_000, 2_000_000));
    assert_eq!(place(&bread.toppings[2]), Point::new(1_000_000, 2_000_000));
    assert_eq!(
        bread.toppings[2].bounds(),
        Rectangle { x: -3_000_000, y: -2_000_000, w: 8_000_000, h: 8_000_000 }
    );
    bread.set_pos(Point::new(0, 0));
    assert_eq!(bread.pos, Point::new(0, 0));
    assert_eq!(place(&bread.toppings[0]), Point::new(-10_000_000, 0));
}

#[test]
fn bread_is_a_square() {
    let bread = Bread::new(Point::new(30_000_000, 400_000_000));
    assert_eq!(bread.bounds(), Rectangle { x: 3_500_000, y: 373_500_000, w: 53_000_000, h: 53_000_000 });
    assert!(bread.select(Point::new(30_000_000, 400_000_000)));
    assert!(!bread.select(Point::new(60_000_000, 400_000_000)));
    assert!(bread.toppings.is_empty());
}

#[test]
fn candidates_are_left_alone_when_refused() {
    let mut others = vec![patty(Point::new(0, 0))];
    let mut c = Cookable::with_cooked(Filling::Sausage, Point::new(3, 4), ONE);
    assert!(!c.add_to(Point::new(100, 100), &mut others));
    assert_eq!(c.pos, Point::new(3, 4));
    assert_eq!(place(&others[0]), Point::new(0, 0));
    let mut o = Onion::with_cooked(Point::new(3, 4), 0, [[piece(); 3]; 4]);
    let with_onion = vec![onion(Point::new(0, 0), 0)];
    assert!(!o.add_to(Point::new(100, 100), &with_onion));
    assert_eq!(o.pos, Point::new(3, 4));
    let mut s = Squirt::with_blobs(Condiment::Sauce, Point::new(3, 4), &even_roll(4));
    let with_sauce = vec![squirt(Condiment::Sauce, Point::new(0, 0))];
    assert!(!s.add_to(Point::new(100, 100), &with_sauce));
    assert_eq!(s.pos, Point::new(3, 4));
    assert!(s.add_to(Point::new(100, 100), &with_onion));
    assert_eq!(s.pos, Point::new(100, 100));
}
