//! Customers: what they order, and how they take what they are handed.
use crate::bread::{Bread, BreadView};
use crate::chance::{random_chance, unit_draw};
use crate::cookable::Cookable;
use crate::fixed::{clamp, clamped, plus, sat_add, sat_mul, times, Point, ONE};
use crate::geometry::Rectangle;
use crate::ingredient::{portions_of, Ingredient};
use crate::kinds::{Condiment, Filling, Mood};
use crate::onion::{Onion, OnionPiece};
use crate::scoring::{judge, judged};
use crate::squirt::{Squirt, SquirtRoll};
use vstd::prelude::*;

verus! {

pub const PLATE_WIDTH: i64 = 78_000_000;

pub const PLATE_HEIGHT: i64 = 78_000_000;

/// How far below the customer the order is shown.
pub const ORDER_OFFSET_X: i64 = 0;

pub const ORDER_OFFSET_Y: i64 = 90_000_000;

/// The least cook level that a customer asks for.
pub const LEAST_WISH: i64 = 800_000;

/// How far above [`LEAST_WISH`] a wish can lie.
pub const WISH_SPAN: i64 = 400_000;

/// A customer: the order, and once a meal was delivered, the meal and the
/// mood that it left. A mood, once there, stays.
#[derive(Debug)]
pub struct Customer {
    pub pos: Point,
    pub order: Bread,
    pub meal: Option<Bread>,
    pub mood: Option<Mood>,
}

/// A customer as a value.
pub struct CustomerView {
    pub pos: Point,
    pub order: BreadView,
    pub meal: Option<BreadView>,
    pub mood: Option<Mood>,
}

impl View for Customer {
    type V = CustomerView;

    open spec fn view(&self) -> CustomerView {
        CustomerView {
            pos: self.pos,
            order: self.order@,
            meal: match self.meal {
                Some(meal) => Some(meal@),
                None => None,
            },
            mood: self.mood,
        }
    }
}

/// What a new customer likes: how far the filling and the onion should be
/// cooked, each as a sample from zero to one that is peaked in the middle,
/// and the pieces of the onion in the picture of the order.
#[derive(PartialEq, Eq, Clone, Copy, Debug)]
pub struct Taste {
    pub filling: i64,
    pub onion: i64,
    pub layout: [[OnionPiece; 3]; 4],
}

/// The draws that decide what a new customer orders.
#[derive(PartialEq, Eq, Clone, Copy, Debug)]
pub struct OrderRoll {
    /// Below a half: one sausage. Below three quarters: two. Else a patty.
    pub filling: i64,
    /// Whether the customer wants onion.
    pub onion: bool,
    /// Below 0.5: sauce. Below 0.7: mustard. Below 0.9: both. Else none.
    pub condiment: i64,
    pub sauce: SquirtRoll,
    pub mustard: SquirtRoll,
}

/// What became of a delivery.
#[derive(Debug)]
pub enum Delivery {
    /// The customer took the meal, and it left this mood.
    Accepted(Mood),
    /// Nobody took the meal: here it is again.
    Declined(Bread),
}

/// The cook level that a sample of taste stands for: from 0.8 to 1.2.
pub open spec fn wish(sample: i64) -> int {
    LEAST_WISH + times(WISH_SPAN as int, clamped(sample as int, 0, ONE as int))
}

impl OrderRoll {
    pub open spec fn in_range(self) -> bool {
        &&& 0 <= self.filling < ONE
        &&& 0 <= self.condiment < ONE
        &&& self.sauce.in_range()
        &&& self.mustard.in_range()
    }

    /// Draws what a new customer orders: onion with a chance of two in five.
    pub fn draw() -> (roll: OrderRoll)
        ensures
            roll.in_range(),
    {
        let filling = unit_draw();
        let onion = random_chance(2, 5);
        let condiment = unit_draw();
        OrderRoll {
            filling,
            onion,
            condiment,
            sauce: SquirtRoll::draw(),
            mustard: SquirtRoll::draw(),
        }
    }
}

impl CustomerView {
    /// The box around the customer's plate.
    pub open spec fn extent(self) -> Rectangle {
        Rectangle::around(self.pos, Point { x: PLATE_WIDTH, y: PLATE_HEIGHT })
    }

    /// Where the order of a customer at `pos` is shown.
    pub open spec fn order_place(pos: Point) -> Point {
        pos.shifted(Point { x: ORDER_OFFSET_X, y: ORDER_OFFSET_Y })
    }

    /// The customer moved to `pos`, with the order and the meal.
    pub open spec fn put(self, pos: Point) -> CustomerView {
        CustomerView {
            pos,
            order: self.order.put(CustomerView::order_place(pos)),
            meal: match self.meal {
                Some(meal) => Some(meal.put(pos)),
                None => None,
            },
            mood: self.mood,
        }
    }

    /// Whether the customer takes a meal that lies at `meal`: only one who
    /// has no mood yet, and only a meal that touches the plate.
    pub open spec fn takes(self, meal: BreadView) -> bool {
        self.mood is None && meal.extent().overlaps(self.extent())
    }

    /// The customer after `meal` was taken.
    pub open spec fn fed(self, meal: BreadView) -> CustomerView {
        CustomerView {
            meal: Some(meal.put(self.pos)),
            mood: Some(judged(portions_of(self.order.toppings), portions_of(meal.toppings))),
            ..self
        }
    }

    /// The order of a new customer at `pos`.
    pub open spec fn ordered(pos: Point, taste: Taste, roll: OrderRoll) -> BreadView {
        let plain = BreadView { pos: CustomerView::order_place(pos), toppings: Seq::empty() };
        let sausage = Ingredient::Cookable(
            Cookable {
                pos,
                heat: 0,
                top_cooked: wish(taste.filling) as i64,
                bottom_cooked: wish(taste.filling) as i64,
                flipped: false,
                kind: Filling::Sausage,
            },
        );
        let patty = Ingredient::Cookable(
            Cookable {
                pos,
                heat: 0,
                top_cooked: wish(taste.filling) as i64,
                bottom_cooked: wish(taste.filling) as i64,
                flipped: false,
                kind: Filling::VeggiePatty,
            },
        );
        let onion = Ingredient::Onion(Onion::made(pos, wish(taste.onion) as i64, taste.layout));
        let sauce = Ingredient::Squirt(Squirt::drawn(Condiment::Sauce, pos, roll.sauce));
        let mustard = Ingredient::Squirt(Squirt::drawn(Condiment::Mustard, pos, roll.mustard));
        let filled = if roll.filling < 500_000 {
            plain.with(sausage)
        } else if roll.filling < 750_000 {
            plain.with(sausage).with(sausage)
        } else {
            plain.with(patty)
        };
        let topped = if roll.onion {
            filled.with(onion)
        } else {
            filled
        };
        if roll.condiment < 500_000 {
            topped.with(sauce)
        } else if roll.condiment < 700_000 {
            topped.with(mustard)
        } else if roll.condiment < 900_000 {
            topped.with(sauce).with(mustard)
        } else {
            topped
        }
    }

    /// A new customer at `pos`.
    pub open spec fn arrived(pos: Point, taste: Taste, roll: OrderRoll) -> CustomerView {
        CustomerView {
            pos,
            order: CustomerView::ordered(pos, taste, roll),
            meal: None,
            mood: None,
        }
    }
}

/// The cook level that a sample of taste stands for.
pub fn wish_of(sample: i64) -> (level: i64)
    ensures
        level == wish(sample),
        LEAST_WISH <= level <= LEAST_WISH + WISH_SPAN,
{
    let part = sat_mul(WISH_SPAN, clamp(sample, 0, ONE));
    assert(0 <= part <= WISH_SPAN) by {
        let s = clamped(sample as int, 0, ONE as int);
        assert(0 <= WISH_SPAN * s <= WISH_SPAN * ONE) by (nonlinear_arith)
            requires
                0 <= s <= ONE,
                WISH_SPAN == 400_000,
        ;
    }
    LEAST_WISH + part
}

impl Customer {
    /// A new customer at `pos`, who orders as `taste` and the draws say.
    pub fn with_order(pos: Point, taste: &Taste, roll: &OrderRoll) -> (c: Customer)
        ensures
            c@ == CustomerView::arrived(pos, *taste, *roll),
    {
        let mut order = Bread::new(
            pos.shift(Point { x: ORDER_OFFSET_X, y: ORDER_OFFSET_Y }),
        );
        let filling_cooked = wish_of(taste.filling);
        let onion_cooked = wish_of(taste.onion);
        let sausage = Ingredient::Cookable(
            Cookable::with_cooked(Filling::Sausage, pos, filling_cooked),
        );
        if roll.filling < 500_000 {
            order.add(sausage);
        } else if roll.filling < 750_000 {
            order.add(sausage);
            order.add(sausage);
        } else {
            order.add(
                Ingredient::Cookable(
                    Cookable::with_cooked(Filling::VeggiePatty, pos, filling_cooked),
                ),
            );
        }
        if roll.onion {
            order.add(Ingredient::Onion(Onion::with_cooked(pos, onion_cooked, taste.layout)));
        }
        if roll.condiment < 500_000 {
            order.add(Ingredient::Squirt(Squirt::with_blobs(Condiment::Sauce, pos, &roll.sauce)));
        } else if roll.condiment < 700_000 {
            order.add(
                Ingredient::Squirt(Squirt::with_blobs(Condiment::Mustard, pos, &roll.mustard)),
            );
        } else if roll.condiment < 900_000 {
            order.add(Ingredient::Squirt(Squirt::with_blobs(Condiment::Sauce, pos, &roll.sauce)));
            order.add(
                Ingredient::Squirt(Squirt::with_blobs(Condiment::Mustard, pos, &roll.mustard)),
            );
        }
        Customer { pos, order, meal: None, mood: None }
    }

    /// A new customer at `pos`, who orders at random: one sausage, two, or a
    /// patty; onion or none; sauce, mustard, both or neither.
    pub fn new(pos: Point, taste: &Taste) -> (c: Customer)
        ensures
            exists|roll: OrderRoll|
                roll.in_range() && c@ == #[trigger] CustomerView::arrived(pos, *taste, roll),
    {
        let roll = OrderRoll::draw();
        Customer::with_order(pos, taste, &roll)
    }

    pub fn bounds(&self) -> (r: Rectangle)
        ensures
            r == self@.extent(),
    {
        Rectangle::centered(self.pos, Point { x: PLATE_WIDTH, y: PLATE_HEIGHT })
    }

    /// Moves the customer to `pos`, with the order and the meal.
    pub fn set_pos(&mut self, pos: Point)
        ensures
            final(self)@ == old(self)@.put(pos),
    {
        self.pos = pos;
        self.order.set_pos(pos.shift(Point { x: ORDER_OFFSET_X, y: ORDER_OFFSET_Y }));
        match &mut self.meal {
            Some(meal) => {
                meal.set_pos(pos);
            },
            None => {},
        }
    }

    /// Hands `order` to the customer.
    ///
    /// A customer who has no mood yet takes a meal that touches the plate:
    /// the meal is held against the order, the mood that it leaves is kept
    /// for good, and the meal lies on the plate from then on. Every other
    /// meal is declined and handed back, and the customer stays as before.
    pub fn deliver_order(&mut self, order: Bread) -> (outcome: Delivery)
        ensures
            old(self)@.takes(order@) ==> final(self)@ == old(self)@.fed(order@) && outcome
                == Delivery::Accepted(
                judged(portions_of(old(self)@.order.toppings), portions_of(order@.toppings)),
            ),
            !old(self)@.takes(order@) ==> final(self)@ == old(self)@ && outcome
                == Delivery::Declined(order),
    {
        if self.mood.is_none() && order.bounds().intersect_rect(&self.bounds()) {
            let mood = judge(&self.order.portions(), &order.portions());
            let mut meal = order;
            meal.set_pos(self.pos);
            self.meal = Some(meal);
            self.mood = Some(mood);
            Delivery::Accepted(mood)
        } else {
            Delivery::Declined(order)
        }
    }
}


/// A topping cooked as a customer with these wishes likes it.
pub open spec fn to_taste(item: Ingredient, filling: i64, onion: i64) -> bool {
    match item {
        Ingredient::Cookable(c) => c.top_cooked == filling && c.bottom_cooked == filling,
        Ingredient::Onion(o) => forall|i: int| 0 <= i < 4 ==> (#[trigger] o.layers@[i]).cooked == onion,
        Ingredient::Squirt(_) => true,
    }
}

/// Every topping is cooked as a customer with these wishes likes it.
pub open spec fn all_to_taste(toppings: Seq<Ingredient>, filling: i64, onion: i64) -> bool {
    forall|i: int| 0 <= i < toppings.len() ==> to_taste(#[trigger] toppings[i], filling, onion)
}

proof fn lemma_with_keeps_taste(bread: BreadView, item: Ingredient, filling: i64, onion: i64)
    requires
        all_to_taste(bread.toppings, filling, onion),
        to_taste(item, filling, onion),
    ensures
        all_to_taste(bread.with(item).toppings, filling, onion),
        bread.toppings.len() <= bread.with(item).toppings.len() <= bread.toppings.len() + 1,
        bread.toppings.len() > 0 ==> bread.with(item).toppings[0].kind()
            == bread.toppings[0].kind(),
        bread.toppings.len() == 0 && item is Cookable ==> bread.with(item).toppings.len() == 1
            && bread.with(item).toppings[0].kind() is Filling,
{
    let s = bread.toppings;
    let after = bread.with(item).toppings;
    if crate::bread::accepts(s, item.kind()) {
        assert(to_taste(item.put(bread.pos), filling, onion));
        assert forall|i: int| 0 <= i < after.len() implies to_taste(
            #[trigger] after[i],
            filling,
            onion,
        ) by {
            if i < s.len() {
                assert(to_taste(s[i], filling, onion));
            }
        }
        if s.len() > 0 {
            assert(after[0].kind() == s[0].kind());
        }
    }
}

proof fn lemma_portion_to_taste(item: Ingredient, filling: i64, onion: i64)
    requires
        to_taste(item, filling, onion),
        LEAST_WISH <= filling <= LEAST_WISH + WISH_SPAN,
        LEAST_WISH <= onion <= LEAST_WISH + WISH_SPAN,
    ensures
        crate::scoring::well_done(item.as_portion()),
        item.as_portion().kind == item.kind(),
{
    match item {
        Ingredient::Onion(o) => {
            assert(o.layers@[0].cooked == onion);
            assert(o.layers@[1].cooked == onion);
            assert(o.layers@[2].cooked == onion);
            assert(o.layers@[3].cooked == onion);
            assert(Onion::rarest(o.layers@, 1) == onion);
            assert(Onion::rarest(o.layers@, 2) == onion);
            assert(Onion::rarest(o.layers@, 3) == onion);
            assert(Onion::rarest(o.layers@, 4) == onion);
            assert(Onion::most_done(o.layers@, 1) == onion);
            assert(Onion::most_done(o.layers@, 2) == onion);
            assert(Onion::most_done(o.layers@, 3) == onion);
            assert(Onion::most_done(o.layers@, 4) == onion);
        },
        _ => {},
    }
}

proof fn lemma_hearty_from_first(order: Seq<crate::kinds::Portion>, k: int)
    requires
        1 <= k <= order.len(),
        !(order[0].kind is Condiment),
    ensures
        crate::scoring::hearty(order, k) >= 1,
    decreases k,
{
    if k > 1 {
        lemma_hearty_from_first(order, k - 1);
        assert(crate::scoring::hearty(order, k) >= crate::scoring::hearty(order, k - 1));
    } else {
        assert(crate::scoring::hearty(order, 0) == 0);
        assert(crate::scoring::hearty(order, 1) == 1);
    }
}

/// Whatever a customer orders, the order itself, handed over as a meal,
/// makes the customer happy.
pub proof fn lemma_own_order_makes_happy(pos: Point, taste: Taste, roll: OrderRoll)
    ensures
        judged(
            portions_of(CustomerView::ordered(pos, taste, roll).toppings),
            portions_of(CustomerView::ordered(pos, taste, roll).toppings),
        ) == Mood::Happy,
{
    let fc = wish(taste.filling) as i64;
    let oc = wish(taste.onion) as i64;
    assert(LEAST_WISH <= wish(taste.filling) <= LEAST_WISH + WISH_SPAN) by {
        let s = clamped(taste.filling as int, 0, ONE as int);
        assert(0 <= WISH_SPAN * s <= WISH_SPAN * ONE) by (nonlinear_arith)
            requires
                0 <= s <= ONE,
                WISH_SPAN == 400_000,
        ;
    }
    assert(LEAST_WISH <= wish(taste.onion) <= LEAST_WISH + WISH_SPAN) by {
        let s = clamped(taste.onion as int, 0, ONE as int);
        assert(0 <= WISH_SPAN * s <= WISH_SPAN * ONE) by (nonlinear_arith)
            requires
                0 <= s <= ONE,
                WISH_SPAN == 400_000,
        ;
    }
    let plain = BreadView { pos: CustomerView::order_place(pos), toppings: Seq::empty() };
    let sausage = Ingredient::Cookable(
        Cookable {
            pos,
            heat: 0,
            top_cooked: fc,
            bottom_cooked: fc,
            flipped: false,
            kind: Filling::Sausage,
        },
    );
    let patty = Ingredient::Cookable(
        Cookable {
            pos,
            heat: 0,
            top_cooked: fc,
            bottom_cooked: fc,
            flipped: false,
            kind: Filling::VeggiePatty,
        },
    );
    let onion = Ingredient::Onion(Onion::made(pos, oc, taste.layout));
    let sauce = Ingredient::Squirt(Squirt::drawn(Condiment::Sauce, pos, roll.sauce));
    let mustard = Ingredient::Squirt(Squirt::drawn(Condiment::Mustard, pos, roll.mustard));
    assert(to_taste(onion, fc, oc));
    let first = if roll.filling < 750_000 {
        sausage
    } else {
        patty
    };
    let one = plain.with(first);
    lemma_with_keeps_taste(plain, first, fc, oc);
    let filled = if 500_000 <= roll.filling < 750_000 {
        one.with(sausage)
    } else {
        one
    };
    lemma_with_keeps_taste(one, sausage, fc, oc);
    let topped = if roll.onion {
        filled.with(onion)
    } else {
        filled
    };
    lemma_with_keeps_taste(filled, onion, fc, oc);
    let sauced = if roll.condiment < 500_000 || 700_000 <= roll.condiment < 900_000 {
        topped.with(sauce)
    } else {
        topped
    };
    lemma_with_keeps_taste(topped, sauce, fc, oc);
    let done = if 500_000 <= roll.condiment < 900_000 {
        sauced.with(mustard)
    } else {
        sauced
    };
    lemma_with_keeps_taste(sauced, mustard, fc, oc);
    assert(done == CustomerView::ordered(pos, taste, roll));
    let order = portions_of(done.toppings);
    assert(1 <= order.len() <= 5);
    assert forall|i: int| 0 <= i < order.len() implies crate::scoring::well_done(
        #[trigger] order[i],
    ) by {
        assert(to_taste(done.toppings[i], fc, oc));
        lemma_portion_to_taste(done.toppings[i], fc, oc);
    }
    assert(to_taste(done.toppings[0], fc, oc));
    lemma_portion_to_taste(done.toppings[0], fc, oc);
    assert(order[0].kind is Filling);
    lemma_hearty_from_first(order, order.len() as int);
    crate::scoring::lemma_exact_meal_is_happy(order);
}

} // verus!
