//! The queue: customers come in at one end, move up towards the head, and
//! walk off once they have been served.
use crate::bread::Bread;
use crate::chance::unit_draw;
use crate::customer::{Customer, CustomerView, Delivery, OrderRoll, Taste};
use crate::fixed::{
    direction, minus, plus, sat_add, sat_mul, sat_sub, times, unit_of, Point,
};
use crate::geometry::Rectangle;
use crate::ingredient::portions_of;
use crate::scoring::judged;
use vstd::prelude::*;

verus! {

/// How many customers come in per second, on average.
pub const CUSTOMERS_PER_SECOND: i64 = 100_000;

/// How far behind one another customers stand.
pub const QUEUE_SPACING: i64 = 130_000_000;

/// How fast customers move up, per second. They walk off twice as fast.
pub const QUEUE_SPEED: i64 = 100_000_000;

/// How far above the head of the queue a customer who walks off stops
/// holding up those behind.
pub const LEAVE_CLEAR: i64 = 60_000_000;

/// How far above the head of the queue a customer who walks off is gone.
pub const LEAVE_GONE: i64 = 200_000_000;

/// The margin of the queue's box around its two ends.
pub const QUEUE_MARGIN: i64 = 50_000_000;

/// A line of customers, the first one in front.
#[derive(Debug)]
pub struct Queue {
    pub head: Point,
    pub entry: Point,
    pub max_len: usize,
    pub customers: Vec<Customer>,
}

/// A queue as a value.
pub struct QueueView {
    pub head: Point,
    pub entry: Point,
    pub max_len: usize,
    pub customers: Seq<CustomerView>,
}

/// The customers as values, in their order.
pub open spec fn views_of(customers: Seq<Customer>) -> Seq<CustomerView> {
    Seq::new(customers.len(), |i: int| customers[i]@)
}

impl View for Queue {
    type V = QueueView;

    open spec fn view(&self) -> QueueView {
        QueueView {
            head: self.head,
            entry: self.entry,
            max_len: self.max_len,
            customers: views_of(self.customers@),
        }
    }
}

/// The draws of one tick of a queue.
#[derive(PartialEq, Eq, Clone, Copy, Debug)]
pub struct QueueRoll {
    /// Held against the chance that a customer comes in.
    pub arrival: i64,
    /// What that customer orders.
    pub order: OrderRoll,
}

impl QueueRoll {
    pub open spec fn in_range(self) -> bool {
        0 <= self.arrival < crate::fixed::ONE && self.order.in_range()
    }

    pub fn draw() -> (roll: QueueRoll)
        ensures
            roll.in_range(),
    {
        QueueRoll { arrival: unit_draw(), order: OrderRoll::draw() }
    }
}

/// Customers in the middle of moving up: the first ones have moved.
pub struct March {
    pub customers: Seq<CustomerView>,
    /// Where the last customer stands who holds up those behind.
    pub ahead: Option<Point>,
}

/// How far customers move up in `dt` seconds.
pub open spec fn stride(dt: i64) -> int {
    times(QUEUE_SPEED as int, dt as int)
}

/// Where a customer is headed: the head of the queue, or the place one
/// spacing behind the customer ahead.
pub open spec fn target(ahead: Option<Point>, head: Point, del: Point) -> Point {
    match ahead {
        Some(p) => Point {
            x: minus(p.x as int, times(del.x as int, QUEUE_SPACING as int)) as i64,
            y: minus(p.y as int, times(del.y as int, QUEUE_SPACING as int)) as i64,
        },
        None => head,
    }
}

/// How far it is from `pos` to `goal`, measured along the direction `del`.
pub open spec fn distance_left(pos: Point, goal: Point, del: Point) -> int {
    plus(
        times(minus(goal.x as int, pos.x as int), del.x as int),
        times(minus(goal.y as int, pos.y as int), del.y as int),
    )
}

/// Where a customer at `pos` stands after moving up for `dt` seconds: a
/// stride further, or at the goal where that is no further than a stride;
/// never back.
pub open spec fn moved_up(pos: Point, goal: Point, del: Point, dt: i64) -> Point {
    let left = distance_left(pos, goal, del);
    if left <= 0 {
        pos
    } else if left > stride(dt) {
        Point {
            x: plus(pos.x as int, times(del.x as int, stride(dt))) as i64,
            y: plus(pos.y as int, times(del.y as int, stride(dt))) as i64,
        }
    } else {
        goal
    }
}

/// Where a customer at `pos` stands after walking off for `dt` seconds.
pub open spec fn walked_off(pos: Point, dt: i64) -> Point {
    Point { x: pos.x, y: minus(pos.y as int, plus(stride(dt), stride(dt))) as i64 }
}

/// One customer after `dt` seconds, and who holds up those behind from then
/// on.
///
/// One who has no mood moves up behind the one ahead. One who has a mood
/// walks off, and holds up those behind only while still near the queue.
pub open spec fn stepped(
    c: CustomerView,
    ahead: Option<Point>,
    head: Point,
    del: Point,
    dt: i64,
) -> (CustomerView, Option<Point>) {
    if c.mood is None {
        let pos = moved_up(c.pos, target(ahead, head, del), del, dt);
        (
            if pos == c.pos {
                c
            } else {
                c.put(pos)
            },
            Some(pos),
        )
    } else {
        let pos = walked_off(c.pos, dt);
        (
            c.put(pos),
            if pos.y > head.y - LEAVE_CLEAR {
                Some(pos)
            } else {
                ahead
            },
        )
    }
}

/// The customers after the first `k` of them have moved for `dt` seconds.
pub open spec fn marched(
    customers: Seq<CustomerView>,
    head: Point,
    del: Point,
    dt: i64,
    k: int,
) -> March
    decreases k,
{
    if k <= 0 {
        March { customers, ahead: None }
    } else {
        let before = marched(customers, head, del, dt, k - 1);
        let next = stepped(customers[k - 1], before.ahead, head, del, dt);
        March { customers: before.customers.update(k - 1, next.0), ahead: next.1 }
    }
}

/// Whether a customer is still part of the queue: until walking off has
/// taken them far enough.
pub open spec fn stays(c: CustomerView, head: Point) -> bool {
    c.mood is None || c.pos.y > head.y - LEAVE_GONE
}

/// Those of the first `k` customers that are still part of the queue.
pub open spec fn kept_upto(customers: Seq<CustomerView>, head: Point, k: int) -> Seq<CustomerView>
    decreases k,
{
    if k <= 0 {
        Seq::empty()
    } else if stays(customers[k - 1], head) {
        kept_upto(customers, head, k - 1).push(customers[k - 1])
    } else {
        kept_upto(customers, head, k - 1)
    }
}

/// How likely a customer is to come in within `dt` seconds.
pub open spec fn arrival_chance(dt: i64) -> int {
    times(dt as int, CUSTOMERS_PER_SECOND as int)
}

impl QueueView {
    /// The box around the queue.
    pub open spec fn extent(self) -> Rectangle {
        Rectangle {
            x: minus(self.head.x as int, QUEUE_MARGIN as int) as i64,
            y: minus(self.head.y as int, QUEUE_MARGIN as int) as i64,
            w: plus(2 * QUEUE_MARGIN, minus(self.entry.x as int, self.head.x as int)) as i64,
            h: plus(2 * QUEUE_MARGIN, minus(self.entry.y as int, self.head.y as int)) as i64,
        }
    }

    /// Whether a customer comes in: only while the queue is not full, and
    /// only as the draw says.
    pub open spec fn admits(self, dt: i64, roll: QueueRoll) -> bool {
        self.customers.len() < self.max_len && roll.arrival < arrival_chance(dt)
    }

    /// The customers once the newcomer, if any, has joined at the entry.
    pub open spec fn joined(self, dt: i64, taste: Taste, roll: QueueRoll) -> Seq<CustomerView> {
        if self.admits(dt, roll) {
            self.customers.push(CustomerView::arrived(self.entry, taste, roll.order))
        } else {
            self.customers
        }
    }

    /// The direction in which the queue moves.
    pub open spec fn heading(self) -> Point {
        unit_of(self.head.x - self.entry.x, self.head.y - self.entry.y)
    }

    /// The queue after `dt` seconds.
    pub open spec fn ticked(self, dt: i64, taste: Taste, roll: QueueRoll) -> QueueView {
        let all = self.joined(dt, taste, roll);
        let after = marched(all, self.head, self.heading(), dt, all.len() as int).customers;
        QueueView { customers: kept_upto(after, self.head, after.len() as int), ..self }
    }

    /// `i` is the first customer who takes `meal`.
    pub open spec fn first_taker(self, meal: crate::bread::BreadView, i: int) -> bool {
        &&& 0 <= i < self.customers.len()
        &&& self.customers[i].takes(meal)
        &&& forall|j: int| 0 <= j < i ==> !(#[trigger] self.customers[j]).takes(meal)
    }

    /// The queue after `meal` was handed to it: the first customer in the
    /// line who takes it is fed.
    pub open spec fn served(self, meal: crate::bread::BreadView) -> QueueView {
        if exists|i: int| self.first_taker(meal, i) {
            let i = choose|i: int| self.first_taker(meal, i);
            QueueView { customers: self.customers.update(i, self.customers[i].fed(meal)), ..self }
        } else {
            self
        }
    }

    /// The mood that `meal` leaves in the first customer who takes it.
    pub open spec fn response(self, meal: crate::bread::BreadView) -> Option<crate::kinds::Mood> {
        if exists|i: int| self.first_taker(meal, i) {
            let i = choose|i: int| self.first_taker(meal, i);
            Some(judged(portions_of(self.customers[i].order.toppings), portions_of(meal.toppings)))
        } else {
            None
        }
    }

    /// No customer takes `meal`.
    pub open spec fn no_taker(self, meal: crate::bread::BreadView) -> bool {
        forall|j: int| 0 <= j < self.customers.len() ==> !(#[trigger] self.customers[j]).takes(meal)
    }
}

/// Moves one customer for `dt` seconds, and says who holds up those behind
/// from then on.
pub fn step_customer(
    c: &mut Customer,
    ahead: Option<Point>,
    head: Point,
    del: Point,
    dt: i64,
) -> (next_ahead: Option<Point>)
    ensures
        (final(c)@, next_ahead) == stepped(old(c)@, ahead, head, del, dt),
{
    let step = sat_mul(QUEUE_SPEED, dt);
    let pos = c.pos;
    if c.mood.is_none() {
        let goal = match ahead {
            Some(p) => Point {
                x: sat_sub(p.x, sat_mul(del.x, QUEUE_SPACING)),
                y: sat_sub(p.y, sat_mul(del.y, QUEUE_SPACING)),
            },
            None => head,
        };
        let left = sat_add(
            sat_mul(sat_sub(goal.x, pos.x), del.x),
            sat_mul(sat_sub(goal.y, pos.y), del.y),
        );
        let next = if left <= 0 {
            pos
        } else if left > step {
            Point { x: sat_add(pos.x, sat_mul(del.x, step)), y: sat_add(pos.y, sat_mul(del.y, step)) }
        } else {
            goal
        };
        if next.x != pos.x || next.y != pos.y {
            c.set_pos(next);
        }
        Some(next)
    } else {
        let next = Point { x: pos.x, y: sat_sub(pos.y, sat_add(step, step)) };
        c.set_pos(next);
        if next.y as i128 > head.y as i128 - LEAVE_CLEAR as i128 {
            Some(next)
        } else {
            ahead
        }
    }
}

impl Queue {
    /// An empty queue from `entry` up to `head` for at most `max_len`
    /// customers.
    pub fn new(head: Point, entry: Point, max_len: usize) -> (q: Queue)
        ensures
            q@ == (QueueView { head, entry, max_len, customers: Seq::empty() }),
    {
        let q = Queue { head, entry, max_len, customers: Vec::new() };
        assert(q@.customers =~= Seq::empty());
        q
    }

    pub fn bounds(&self) -> (r: Rectangle)
        ensures
            r == self@.extent(),
    {
        Rectangle::new(
            Point { x: sat_sub(self.head.x, QUEUE_MARGIN), y: sat_sub(self.head.y, QUEUE_MARGIN) },
            Point {
                x: sat_add(100_000_000, sat_sub(self.entry.x, self.head.x)),
                y: sat_add(100_000_000, sat_sub(self.entry.y, self.head.y)),
            },
        )
    }

    /// Lets `dt` seconds pass: a customer comes in if the draws say so and
    /// the queue is not full, everybody moves, and who has walked off far
    /// enough is gone.
    pub fn update_with(&mut self, dt: i64, taste: &Taste, roll: &QueueRoll)
        ensures
            final(self)@ == old(self)@.ticked(dt, *taste, *roll),
    {
        self.let_in(dt, taste, roll);
        self.march(dt);
        self.sweep();
    }

    /// Lets a customer in at the entry if the draws say so and the queue is
    /// not full.
    pub fn let_in(&mut self, dt: i64, taste: &Taste, roll: &QueueRoll)
        ensures
            final(self)@ == (QueueView {
                customers: old(self)@.joined(dt, *taste, *roll),
                ..old(self)@
            }),
    {
        if self.customers.len() < self.max_len && roll.arrival < sat_mul(dt, CUSTOMERS_PER_SECOND) {
            let newcomer = Customer::with_order(self.entry, taste, &roll.order);
            self.customers.push(newcomer);
        }
        assert(views_of(self.customers@) =~= old(self)@.joined(dt, *taste, *roll));
    }

    /// Moves every customer for `dt` seconds, the first one first.
    pub fn march(&mut self, dt: i64)
        ensures
            final(self)@ == (QueueView {
                customers: marched(
                    old(self)@.customers,
                    old(self).head,
                    old(self)@.heading(),
                    dt,
                    old(self)@.customers.len() as int,
                ).customers,
                ..old(self)@
            }),
    {
        let ghost all = views_of(self.customers@);
        let del = direction(self.entry, self.head);
        let head = self.head;
        let mut ahead: Option<Point> = None;
        let mut i: usize = 0;
        while i < self.customers.len()
            invariant
                i <= self.customers.len(),
                self.customers@.len() == all.len(),
                self.head == old(self).head,
                self.entry == old(self).entry,
                self.max_len == old(self).max_len,
                head == self.head,
                del == old(self)@.heading(),
                views_of(self.customers@) == marched(all, head, del, dt, i as int).customers,
                ahead == marched(all, head, del, dt, i as int).ahead,
                forall|k: int| i <= k < all.len() ==> (#[trigger] self.customers@[k])@ == all[k],
            decreases self.customers.len() - i,
        {
            let ghost before = views_of(self.customers@);
            ahead = step_customer(&mut self.customers[i], ahead, head, del, dt);
            assert(views_of(self.customers@) =~= before.update(i as int, self.customers@[i as int]@));
            i += 1;
        }
    }

    /// Takes out of the queue who has walked off far enough.
    pub fn sweep(&mut self)
        ensures
            final(self)@ == (QueueView {
                customers: kept_upto(
                    old(self)@.customers,
                    old(self).head,
                    old(self)@.customers.len() as int,
                ),
                ..old(self)@
            }),
    {
        let head = self.head;
        let ghost after = views_of(self.customers@);
        let mut rest: Vec<Customer> = Vec::new();
        std::mem::swap(&mut self.customers, &mut rest);
        let ghost mut k: int = 0;
        let ghost total = rest@.len();
        while rest.len() > 0
            invariant
                0 <= k,
                k + rest@.len() == total,
                total == after.len(),
                self.head == old(self).head,
                self.entry == old(self).entry,
                self.max_len == old(self).max_len,
                head == self.head,
                views_of(rest@) =~= after.subrange(k, total as int),
                views_of(self.customers@) == kept_upto(after, head, k),
            decreases rest.len(),
        {
            let ghost before_rest = views_of(rest@);
            let ghost before_kept = views_of(self.customers@);
            let c = rest.remove(0);
            assert(c@ == before_rest[0]);
            assert(c@ == after[k]);
            assert(views_of(rest@) =~= before_rest.subrange(1, before_rest.len() as int));
            let keep = c.mood.is_none() || c.pos.y as i128 > head.y as i128 - LEAVE_GONE as i128;
            if keep {
                self.customers.push(c);
                assert(views_of(self.customers@) =~= before_kept.push(c@));
            }
            proof {
                k = k + 1;
            }
        }
    }

    /// Lets `dt` seconds pass; now and then a customer comes in.
    pub fn update(&mut self, dt: i64, taste: &Taste)
        ensures
            exists|roll: QueueRoll|
                roll.in_range() && final(self)@ == #[trigger] old(self)@.ticked(dt, *taste, roll),
    {
        let roll = QueueRoll::draw();
        self.update_with(dt, taste, &roll);
    }

    /// Hands `order` to the first customer in the line who takes it.
    pub fn deliver_order(&mut self, order: Bread) -> (outcome: Delivery)
        ensures
            final(self).head == old(self).head,
            final(self).entry == old(self).entry,
            final(self).max_len == old(self).max_len,
            forall|i: int|
                old(self)@.first_taker(order@, i) ==> final(self)@.customers == old(self)@.customers.update(i, old(self)@.customers[i].fed(order@)) && outcome
                    == Delivery::Accepted(
                    judged(
                        portions_of(old(self)@.customers[i].order.toppings),
                        portions_of(order@.toppings),
                    ),
                ),
            old(self)@.no_taker(order@) ==> final(self)@ == old(self)@ && outcome
                == Delivery::Declined(order),
            final(self)@ == old(self)@.served(order@),
            outcome == match old(self)@.response(order@) {
                Some(mood) => Delivery::Accepted(mood),
                None => Delivery::Declined(order),
            },
    {
        let mut carried = order;
        let mut i: usize = 0;
        while i < self.customers.len()
            invariant
                i <= self.customers.len(),
                self.head == old(self).head,
                self.entry == old(self).entry,
                self.max_len == old(self).max_len,
                views_of(self.customers@) == views_of(old(self).customers@),
                carried == order,
                forall|j: int| 0 <= j < i ==> !(#[trigger] old(self)@.customers[j]).takes(order@),
            decreases self.customers.len() - i,
        {
            let ghost before = views_of(self.customers@);
            match self.customers[i].deliver_order(carried) {
                Delivery::Accepted(mood) => {
                    assert(old(self)@.first_taker(order@, i as int));
                    assert(views_of(self.customers@) =~= before.update(
                        i as int,
                        before[i as int].fed(order@),
                    ));
                    assert forall|j: int| old(self)@.first_taker(order@, j) implies j == i by {
                        if j < i {
                            assert(!old(self)@.customers[j].takes(order@));
                        }
                        if i < j {
                            assert(!old(self)@.customers[i as int].takes(order@));
                        }
                    }
                    return Delivery::Accepted(mood);
                },
                Delivery::Declined(back) => {
                    assert(views_of(self.customers@) =~= before);
                    carried = back;
                },
            }
            i += 1;
        }
        assert forall|j: int| old(self)@.first_taker(order@, j) implies false by {
            assert(!old(self)@.customers[j].takes(order@));
        }
        Delivery::Declined(carried)
    }
}


proof fn lemma_marched_len(customers: Seq<CustomerView>, head: Point, del: Point, dt: i64, k: int)
    requires
        0 <= k <= customers.len(),
    ensures
        marched(customers, head, del, dt, k).customers.len() == customers.len(),
    decreases k,
{
    if k > 0 {
        lemma_marched_len(customers, head, del, dt, k - 1);
    }
}

proof fn lemma_kept_len(customers: Seq<CustomerView>, head: Point, k: int)
    requires
        0 <= k,
    ensures
        kept_upto(customers, head, k).len() <= k,
    decreases k,
{
    if k > 0 {
        lemma_kept_len(customers, head, k - 1);
    }
}

/// A queue that is full lets nobody in, however much time has passed and
/// whatever was drawn.
pub proof fn lemma_full_queue_lets_nobody_in(q: QueueView, dt: i64, taste: Taste, roll: QueueRoll)
    requires
        q.customers.len() >= q.max_len,
    ensures
        !q.admits(dt, roll),
        q.joined(dt, taste, roll) == q.customers,
        q.ticked(dt, taste, roll).customers.len() <= q.customers.len(),
{
    let all = q.joined(dt, taste, roll);
    lemma_marched_len(all, q.head, q.heading(), dt, all.len() as int);
    let after = marched(all, q.head, q.heading(), dt, all.len() as int).customers;
    lemma_kept_len(after, q.head, after.len() as int);
}

/// A queue never holds more customers than it has room for: one that does
/// not before a tick does not after it.
pub proof fn lemma_queue_within_capacity(q: QueueView, dt: i64, taste: Taste, roll: QueueRoll)
    requires
        q.customers.len() <= q.max_len,
    ensures
        q.ticked(dt, taste, roll).customers.len() <= q.max_len,
{
    let all = q.joined(dt, taste, roll);
    lemma_marched_len(all, q.head, q.heading(), dt, all.len() as int);
    let after = marched(all, q.head, q.heading(), dt, all.len() as int).customers;
    lemma_kept_len(after, q.head, after.len() as int);
}

} // verus!
