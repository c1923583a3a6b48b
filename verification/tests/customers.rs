use sizzle::bread::Bread;
use sizzle::cookable::Cookable;
use sizzle::customer::{wish_of, Customer, Delivery, OrderRoll, Taste};
use sizzle::fixed::{Point, ONE};
use sizzle::geometry::Rectangle;
use sizzle::ingredient::Ingredient;
use sizzle::kinds::{Condiment, Filling, Mood, Topping};
use sizzle::onion::OnionPiece;
use sizzle::queue::{step_customer, Queue, QueueRoll};
use sizzle::squirt::{BlobRoll, SquirtRoll};

fn squirt_roll() -> SquirtRoll {
    SquirtRoll { count: 4, blobs: [BlobRoll { across: 500_000, down: 500_000, size: 0 }; 4] }
}

fn piece() -> OnionPiece {
    OnionPiece::new(
        Rectangle { x: -5_000_000, y: -5_000_000, w: 10_000_000, h: 10_000_000 },
        0,
        1_000_000,
        2_000_000,
        Rectangle { x: -4_000_000, y: -4_000_000, w: 8_000_000, h: 8_000_000 },
    )
}

fn taste(filling: i64, onion: i64) -> Taste {
    Taste { filling, onion, layout: [[piece(); 3]; 4] }
}

fn roll(filling: i64, onion: bool, condiment: i64) -> OrderRoll {
    OrderRoll { filling, onion, condiment, sauce: squirt_roll(), mustard: squirt_roll() }
}

fn kinds(bread: &Bread) -> Vec<Topping> {
    bread.toppings.iter().map(|t| t.topping()).collect()
}

fn sausage_order(pos: Point) -> Customer {
    Customer::with_order(pos, &taste(500_000, 500_000), &roll(0, false, 950_000))
}

fn bread_with_sausage(pos: Point, cooked: i64) -> Bread {
    let mut bread = Bread::new(pos);
    bread.add(Ingredient::Cookable(Cookable::with_cooked(Filling::Sausage, pos, cooked)));
    bread
}

fn arrive(arrival: i64) -> QueueRoll {
    QueueRoll { arrival, order: roll(0, false, 950_000) }
}

fn places(q: &Queue) -> Vec<Point> {
    q.customers.iter().map(|c| c.pos).collect()
}

const SAUSAGE: Topping = Topping::Filling(Filling::Sausage);
const PATTY: Topping = Topping::Filling(Filling::VeggiePatty);
const SAUCE: Topping = Topping::Condiment(Condiment::Sauce);
const MUSTARD: Topping = Topping::Condiment(Condiment::Mustard);

#[test]
fn wishes_lie_between_point_eight_and_one_point_two() {
    assert_eq!(wish_of(0), 800_000);
    assert_eq!(wish_of(500_000), 1_000_000);
    assert_eq!(wish_of(ONE), 1_200_000);
    assert_eq!(wish_of(250_000), 900_000);
    assert_eq!(wish_of(-5), 800_000);
    assert_eq!(wish_of(i64::MAX), 1_200_000);
    assert_eq!(wish_of(i64::MIN), 800_000);
}

#[test]
fn the_filling_follows_the_draw() {
    let p = Point::new(0, 0);
    let t = taste(500_000, 500_000);
    assert_eq!(kinds(&Customer::with_order(p, &t, &roll(0, false, 950_000)).order), vec![SAUSAGE]);
    assert_eq!(
        kinds(&Customer::with_order(p, &t, &roll(499_999, false, 950_000)).order),
        vec![SAUSAGE]
    );
    assert_eq!(
        kinds(&Customer::with_order(p, &t, &roll(500_000, false, 950_000)).order),
        vec![SAUSAGE, SAUSAGE]
    );
    assert_eq!(
        kinds(&Customer::with_order(p, &t, &roll(749_999, false, 950_000)).order),
        vec![SAUSAGE, SAUSAGE]
    );
    assert_eq!(
        kinds(&Customer::with_order(p, &t, &roll(750_000, false, 950_000)).order),
        vec![PATTY]
    );
    assert_eq!(
        kinds(&Customer::with_order(p, &t, &roll(999_999, false, 950_000)).order),
        vec![PATTY]
    );
}

#[test]
fn the_condiments_follow_the_draw() {
    let p = Point::new(0, 0);
    let t = taste(500_000, 500_000);
    let order = |c: i64| kinds(&Customer::with_order(p, &t, &roll(0, false, c)).order);
    assert_eq!(order(0), vec![SAUSAGE, SAUCE]);
    assert_eq!(order(499_999), vec![SAUSAGE, SAUCE]);
    assert_eq!(order(500_000), vec![SAUSAGE, MUSTARD]);
    assert_eq!(order(699_999), vec![SAUSAGE, MUSTARD]);
    assert_eq!(order(700_000), vec![SAUSAGE, SAUCE, MUSTARD]);
    assert_eq!(order(899_999), vec![SAUSAGE, SAUCE, MUSTARD]);
    assert_eq!(order(900_000), vec![SAUSAGE]);
}

#[test]
fn the_largest_order_has_five_toppings() {
    let c = Customer::with_order(
        Point::new(100_000_000, 100_000_000),
        &taste(0, ONE),
        &roll(600_000, true, 800_000),
    );
    assert_eq!(kinds(&c.order), vec![SAUSAGE, SAUSAGE, Topping::Onion, SAUCE, MUSTARD]);
    assert_eq!(c.pos, Point::new(100_000_000, 100_000_000));
    assert_eq!(c.order.pos, Point::new(100_000_000, 190_000_000));
    assert!(c.meal.is_none());
    assert!(c.mood.is_none());
    let portions = c.order.portions();
    assert_eq!((portions[0].rare, portions[0].done), (800_000, 800_000));
    assert_eq!((portions[1].rare, portions[1].done), (800_000, 800_000));
    assert_eq!((portions[2].rare, portions[2].done), (1_200_000, 1_200_000));
    match (&c.order.toppings[0], &c.order.toppings[1], &c.order.toppings[2], &c.order.toppings[3]) {
        (
            Ingredient::Cookable(left),
            Ingredient::Cookable(right),
            Ingredient::Onion(onion),
            Ingredient::Squirt(sauce),
        ) => {
            assert_eq!(left.pos, Point::new(90_000_000, 190_000_000));
            assert_eq!(right.pos, Point::new(110_000_000, 190_000_000));
            assert_eq!(onion.pos, Point::new(100_000_000, 190_000_000));
            assert_eq!(sauce.pos, Point::new(100_000_000, 190_000_000));
            assert_eq!(sauce.count, 4);
        },
        _ => panic!("the order is not laid out as expected"),
    }
}

#[test]
fn random_orders_keep_within_the_limits() {
    let mut with_onion = 0;
    let mut patties = 0;
    for _ in 0..300 {
        let c = Customer::new(Point::new(0, 0), &taste(500_000, 500_000));
        let k = kinds(&c.order);
        let fillings = k.iter().filter(|t| matches!(t, Topping::Filling(_))).count();
        let sausages = k.iter().filter(|t| **t == SAUSAGE).count();
        assert!(fillings == 1 || (fillings == 2 && sausages == 2));
        assert!(k.iter().filter(|t| **t == Topping::Onion).count() <= 1);
        assert!(k.iter().filter(|t| **t == SAUCE).count() <= 1);
        assert!(k.iter().filter(|t| **t == MUSTARD).count() <= 1);
        assert!(matches!(k[0], Topping::Filling(_)));
        if k.contains(&Topping::Onion) {
            with_onion += 1;
        }
        if k.contains(&PATTY) {
            patties += 1;
        }
        assert!(c.mood.is_none() && c.meal.is_none());
    }
    assert!(with_onion > 0 && with_onion < 300);
    assert!(patties > 0 && patties < 300);
}

#[test]
fn a_customer_sits_at_a_plate() {
    let c = sausage_order(Point::new(180_000_000, 50_000_000));
    assert_eq!(c.bounds(), Rectangle { x: 141_000_000, y: 11_000_000, w: 78_000_000, h: 78_000_000 });
}

#[test]
fn a_customer_moves_with_the_order() {
    let mut c = Customer::with_order(
        Point::new(0, 0),
        &taste(500_000, 500_000),
        &roll(600_000, false, 950_000),
    );
    c.set_pos(Point::new(5_000_000, 7_000_000));
    assert_eq!(c.pos, Point::new(5_000_000, 7_000_000));
    assert_eq!(c.order.pos, Point::new(5_000_000, 97_000_000));
    match (&c.order.toppings[0], &c.order.toppings[1]) {
        (Ingredient::Cookable(left), Ingredient::Cookable(right)) => {
            assert_eq!(left.pos, Point::new(-5_000_000, 97_000_000));
            assert_eq!(right.pos, Point::new(15_000_000, 97_000_000));
        },
        _ => panic!("two sausages were ordered"),
    }
}

#[test]
fn the_right_meal_makes_happy() {
    let mut c = sausage_order(Point::new(0, 0));
    let meal = bread_with_sausage(Point::new(10_000_000, 10_000_000), 1_000_000);
    assert!(matches!(c.deliver_order(meal), Delivery::Accepted(Mood::Happy)));
    assert_eq!(c.mood, Some(Mood::Happy));
    let kept = c.meal.as_ref().unwrap();
    assert_eq!(kept.pos, Point::new(0, 0));
    assert_eq!(kinds(kept), vec![SAUSAGE]);
    match &kept.toppings[0] {
        Ingredient::Cookable(s) => assert_eq!(s.pos, Point::new(0, 0)),
        _ => panic!("a sausage was delivered"),
    }
}

#[test]
fn a_burnt_sausage_makes_sad() {
    let mut c = sausage_order(Point::new(0, 0));
    let meal = bread_with_sausage(Point::new(0, 0), 1_600_000);
    assert!(matches!(c.deliver_order(meal), Delivery::Accepted(Mood::Sad)));
    assert_eq!(c.mood, Some(Mood::Sad));
}

#[test]
fn a_meal_out_of_reach_is_declined() {
    let mut c = sausage_order(Point::new(0, 0));
    let meal = bread_with_sausage(Point::new(65_500_000, 0), 1_000_000);
    match c.deliver_order(meal) {
        Delivery::Declined(back) => {
            assert_eq!(back.pos, Point::new(65_500_000, 0));
            assert_eq!(kinds(&back), vec![SAUSAGE]);
        },
        Delivery::Accepted(_) => panic!("the meal does not touch the plate"),
    }
    assert!(c.mood.is_none());
    assert!(c.meal.is_none());
    let near = bread_with_sausage(Point::new(65_499_999, 0), 1_000_000);
    assert!(matches!(c.deliver_order(near), Delivery::Accepted(Mood::Happy)));
}

#[test]
fn a_mood_stays() {
    let mut c = sausage_order(Point::new(0, 0));
    assert!(matches!(
        c.deliver_order(bread_with_sausage(Point::new(0, 0), 1_600_000)),
        Delivery::Accepted(Mood::Sad)
    ));
    let second = bread_with_sausage(Point::new(0, 0), 1_000_000);
    assert!(matches!(c.deliver_order(second), Delivery::Declined(_)));
    assert_eq!(c.mood, Some(Mood::Sad));
    match &c.meal.as_ref().unwrap().toppings[0] {
        Ingredient::Cookable(s) => assert_eq!(s.top_cooked, 1_600_000),
        _ => panic!("a sausage was delivered"),
    }
}

#[test]
fn a_new_queue_is_empty() {
    let q = Queue::new(Point::new(180_000_000, 50_000_000), Point::new(720_000_000, 50_000_000), 4);
    assert!(q.customers.is_empty());
    assert_eq!(q.max_len, 4);
    assert_eq!(q.bounds(), Rectangle { x: 130_000_000, y: 0, w: 640_000_000, h: 100_000_000 });
}

#[test]
fn a_customer_comes_in_when_the_draw_is_below_the_chance() {
    let t = taste(500_000, 500_000);
    let mut q = Queue::new(Point::new(180_000_000, 50_000_000), Point::new(720_000_000, 50_000_000), 4);
    q.update_with(ONE, &t, &arrive(100_000));
    assert!(q.customers.is_empty());
    q.update_with(ONE, &t, &arrive(99_999));
    assert_eq!(places(&q), vec![Point::new(620_000_000, 50_000_000)]);
    assert_eq!(q.customers[0].order.pos, Point::new(620_000_000, 140_000_000));
    q.update_with(0, &t, &arrive(0));
    assert_eq!(q.customers.len(), 1);
}

#[test]
fn a_full_queue_lets_nobody_in() {
    let t = taste(500_000, 500_000);
    let mut q = Queue::new(Point::new(180_000_000, 50_000_000), Point::new(720_000_000, 50_000_000), 2);
    for _ in 0..10 {
        q.update_with(ONE, &t, &arrive(0));
        assert!(q.customers.len() <= 2);
    }
    assert_eq!(q.customers.len(), 2);
    q.update_with(i64::MAX, &t, &arrive(0));
    assert_eq!(q.customers.len(), 2);
    let mut none = Queue::new(Point::new(0, 0), Point::new(100, 0), 0);
    none.update_with(ONE, &t, &arrive(0));
    assert!(none.customers.is_empty());
}

#[test]
fn a_full_queue_stays_full_at_random_too() {
    let t = taste(500_000, 500_000);
    let mut q = Queue::new(Point::new(180_000_000, 50_000_000), Point::new(720_000_000, 50_000_000), 3);
    for _ in 0..500 {
        q.update(ONE, &t);
        assert!(q.customers.len() <= 3);
    }
    assert_eq!(q.customers.len(), 3);
}

#[test]
fn customers_move_up_and_keep_their_distance() {
    let t = taste(500_000, 500_000);
    let mut q = Queue::new(Point::new(180_000_000, 50_000_000), Point::new(720_000_000, 50_000_000), 4);
    q.update_with(ONE, &t, &arrive(0));
    q.update_with(ONE, &t, &arrive(0));
    assert_eq!(
        places(&q),
        vec![Point::new(520_000_000, 50_000_000), Point::new(650_000_000, 50_000_000)]
    );
    q.update_with(3 * ONE, &t, &arrive(ONE));
    assert_eq!(
        places(&q),
        vec![Point::new(220_000_000, 50_000_000), Point::new(350_000_000, 50_000_000)]
    );
    q.update_with(ONE, &t, &arrive(ONE));
    assert_eq!(
        places(&q),
        vec![Point::new(180_000_000, 50_000_000), Point::new(310_000_000, 50_000_000)]
    );
    q.update_with(ONE, &t, &arrive(ONE));
    assert_eq!(
        places(&q),
        vec![Point::new(180_000_000, 50_000_000), Point::new(310_000_000, 50_000_000)]
    );
}

#[test]
fn a_customer_never_moves_back() {
    let mut c = sausage_order(Point::new(100_000_000, 50_000_000));
    let head = Point::new(180_000_000, 50_000_000);
    let ahead = step_customer(&mut c, None, head, Point::new(-ONE, 0), ONE);
    assert_eq!(c.pos, Point::new(100_000_000, 50_000_000));
    assert_eq!(ahead, Some(Point::new(100_000_000, 50_000_000)));
}

#[test]
fn a_served_customer_walks_off_and_is_gone() {
    let t = taste(500_000, 500_000);
    let head = Point::new(180_000_000, 250_000_000);
    let mut q = Queue::new(head, Point::new(720_000_000, 250_000_000), 4);
    q.update_with(6 * ONE, &t, &arrive(0));
    q.update_with(ONE, &t, &arrive(0));
    assert_eq!(places(&q), vec![head, Point::new(620_000_000, 250_000_000)]);
    let meal = bread_with_sausage(head, 1_000_000);
    assert!(matches!(q.deliver_order(meal), Delivery::Accepted(Mood::Happy)));
    q.update_with(250_000, &t, &arrive(ONE));
    assert_eq!(
        places(&q),
        vec![Point::new(180_000_000, 200_000_000), Point::new(595_000_000, 250_000_000)]
    );
    assert_eq!(q.customers[0].meal.as_ref().unwrap().pos, Point::new(180_000_000, 200_000_000));
    q.update_with(50_000, &t, &arrive(ONE));
    assert_eq!(
        places(&q),
        vec![Point::new(180_000_000, 190_000_000), Point::new(590_000_000, 250_000_000)]
    );
    q.update_with(ONE, &t, &arrive(ONE));
    assert_eq!(places(&q), vec![Point::new(490_000_000, 250_000_000)]);
    q.update_with(10 * ONE, &t, &arrive(ONE));
    assert_eq!(places(&q), vec![head]);
}

#[test]
fn a_customer_who_walks_off_holds_up_the_next_for_a_while() {
    let t = taste(500_000, 500_000);
    let head = Point::new(180_000_000, 250_000_000);
    let mut q = Queue::new(head, Point::new(200_000_000, 250_000_000), 4);
    q.update_with(ONE, &t, &arrive(0));
    q.update_with(ONE, &t, &arrive(0));
    assert_eq!(places(&q), vec![head, Point::new(200_000_000, 250_000_000)]);
    assert!(matches!(
        q.deliver_order(bread_with_sausage(head, 1_000_000)),
        Delivery::Accepted(_)
    ));
    q.update_with(100_000, &t, &arrive(ONE));
    assert_eq!(
        places(&q),
        vec![Point::new(180_000_000, 230_000_000), Point::new(200_000_000, 250_000_000)]
    );
    q.update_with(200_000, &t, &arrive(ONE));
    assert_eq!(
        places(&q),
        vec![Point::new(180_000_000, 190_000_000), head]
    );
}

#[test]
fn the_first_customer_in_reach_gets_the_meal() {
    let t = taste(500_000, 500_000);
    let head = Point::new(0, 0);
    let mut q = Queue::new(head, Point::new(40_000_000, 0), 4);
    q.update_with(ONE, &t, &arrive(0));
    q.update_with(ONE, &t, &arrive(0));
    assert_eq!(places(&q), vec![head, Point::new(40_000_000, 0)]);
    let far = bread_with_sausage(Point::new(500_000_000, 0), 1_000_000);
    assert!(matches!(q.deliver_order(far), Delivery::Declined(_)));
    let meal = bread_with_sausage(Point::new(20_000_000, 0), 1_000_000);
    assert!(matches!(q.deliver_order(meal), Delivery::Accepted(Mood::Happy)));
    assert_eq!(q.customers[0].mood, Some(Mood::Happy));
    assert!(q.customers[1].mood.is_none());
    let burnt = bread_with_sausage(Point::new(20_000_000, 0), 1_600_000);
    assert!(matches!(q.deliver_order(burnt), Delivery::Accepted(Mood::Sad)));
    assert_eq!(q.customers[0].mood, Some(Mood::Happy));
    assert_eq!(q.customers[1].mood, Some(Mood::Sad));
    let third = bread_with_sausage(Point::new(20_000_000, 0), 1_000_000);
    assert!(matches!(q.deliver_order(third), Delivery::Declined(_)));
}

#[test]
fn a_queue_can_run_downwards() {
    let t = taste(500_000, 500_000);
    let mut q = Queue::new(Point::new(0, 400_000_000), Point::new(0, 0), 4);
    q.update_with(ONE, &t, &arrive(0));
    assert_eq!(places(&q), vec![Point::new(0, 100_000_000)]);
    q.update_with(10 * ONE, &t, &arrive(ONE));
    assert_eq!(places(&q), vec![Point::new(0, 400_000_000)]);
}

#[test]
fn a_queue_of_no_length_moves_nobody() {
    let t = taste(500_000, 500_000);
    let mut q = Queue::new(Point::new(5, 5), Point::new(5, 5), 4);
    q.update_with(ONE, &t, &arrive(0));
    q.update_with(ONE, &t, &arrive(0));
    assert_eq!(places(&q), vec![Point::new(5, 5), Point::new(5, 5)]);
}
