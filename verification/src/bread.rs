//! Bread: the carrier of an order and of a meal.
use crate::cookable::Cookable;
use crate::fixed::{minus, plus, Point};
use crate::geometry::Rectangle;
use crate::ingredient::{
    has_kind,
    admits_filling, has_condiment, has_onion, lone_sausage, no_filling, Ingredient, SAUSAGE_OFFSET,
};
use crate::kinds::Topping;
use vstd::prelude::*;

verus! {

pub const BREAD_WIDTH: i64 = 53_000_000;

pub const BREAD_HEIGHT: i64 = 53_000_000;

/// A piece of bread and what lies on it, in the order in which it was added.
#[derive(Debug)]
pub struct Bread {
    pub pos: Point,
    pub toppings: Vec<Ingredient>,
}

/// A piece of bread as a value: where it lies and what lies on it.
pub struct BreadView {
    pub pos: Point,
    pub toppings: Seq<Ingredient>,
}

impl View for Bread {
    type V = BreadView;

    open spec fn view(&self) -> BreadView {
        BreadView { pos: self.pos, toppings: self.toppings@ }
    }
}

/// The toppings, each moved as a pointer drag from `from` to `to` moves it.
pub open spec fn all_dragged(toppings: Seq<Ingredient>, from: Point, to: Point) -> Seq<Ingredient> {
    Seq::new(toppings.len(), |i: int| toppings[i].dragged(from, to))
}

/// Whether a bread that carries `toppings` takes one more of kind `kind`:
/// a filling as [`admits_filling`] says, onion once, each condiment once.
pub open spec fn accepts(toppings: Seq<Ingredient>, kind: Topping) -> bool {
    match kind {
        Topping::Filling(f) => admits_filling(toppings, f),
        Topping::Onion => !has_onion(toppings),
        Topping::Condiment(c) => !has_condiment(toppings, c),
    }
}

/// What lies on a bread at `pos` after it took `item`.
///
/// The item is put on the middle of the bread. A second sausage is put to
/// the right of the middle instead, and the first one to the left.
pub open spec fn arranged(toppings: Seq<Ingredient>, pos: Point, item: Ingredient) -> Seq<
    Ingredient,
> {
    match item {
        Ingredient::Cookable(c) => {
            if no_filling(toppings) {
                toppings.push(Ingredient::Cookable(Cookable { pos, ..c }))
            } else {
                let i = choose|i: int| lone_sausage(toppings, i);
                toppings.update(
                    i,
                    toppings[i].put(
                        Point { x: minus(pos.x as int, SAUSAGE_OFFSET as int) as i64, y: pos.y },
                    ),
                ).push(
                    Ingredient::Cookable(
                        Cookable {
                            pos: Point {
                                x: plus(pos.x as int, SAUSAGE_OFFSET as int) as i64,
                                y: pos.y,
                            },
                            ..c
                        },
                    ),
                )
            }
        },
        _ => toppings.push(item.put(pos)),
    }
}

impl BreadView {
    /// The box around the bread.
    pub open spec fn extent(self) -> Rectangle {
        Rectangle::around(self.pos, Point { x: BREAD_WIDTH, y: BREAD_HEIGHT })
    }

    /// The bread, with all that lies on it, moved as a pointer drag from
    /// `from` to `to` moves it.
    pub open spec fn dragged(self, from: Point, to: Point) -> BreadView {
        BreadView {
            pos: self.pos.dragged(from, to),
            toppings: all_dragged(self.toppings, from, to),
        }
    }

    /// The bread, with all that lies on it, moved to `pos`.
    pub open spec fn put(self, pos: Point) -> BreadView {
        self.dragged(self.pos, pos)
    }

    /// The bread after `item` was offered to it.
    pub open spec fn with(self, item: Ingredient) -> BreadView {
        if accepts(self.toppings, item.kind()) {
            BreadView { pos: self.pos, toppings: arranged(self.toppings, self.pos, item) }
        } else {
            self
        }
    }
}

impl Bread {
    /// A piece of bread at `pos` with nothing on it.
    pub fn new(pos: Point) -> (b: Bread)
        ensures
            b@ == (BreadView { pos, toppings: Seq::empty() }),
    {
        Bread { pos, toppings: Vec::new() }
    }

    pub fn bounds(&self) -> (r: Rectangle)
        ensures
            r == self@.extent(),
    {
        Rectangle::centered(self.pos, Point { x: BREAD_WIDTH, y: BREAD_HEIGHT })
    }

    /// Whether the pointer at `pos` picks the bread.
    pub fn select(&self, pos: Point) -> (hit: bool)
        ensures
            hit == self@.extent().holds(pos),
    {
        self.bounds().intersect_point(pos)
    }

    /// Moves the bread, and all that lies on it, as a pointer drag from
    /// `from` to `to` does.
    pub fn drag(&mut self, from: Point, to: Point)
        ensures
            final(self)@ == old(self)@.dragged(from, to),
    {
        self.pos = self.pos.drag(from, to);
        let mut i: usize = 0;
        while i < self.toppings.len()
            invariant
                i <= self.toppings.len(),
                self.pos == old(self).pos.dragged(from, to),
                self.toppings@.len() == old(self).toppings@.len(),
                forall|k: int|
                    0 <= k < i ==> self.toppings@[k] == old(self).toppings@[k].dragged(from, to),
                forall|k: int|
                    i <= k < self.toppings@.len() ==> self.toppings@[k] == old(self).toppings@[k],
            decreases self.toppings.len() - i,
        {
            let mut item = self.toppings[i];
            item.drag(from, to);
            self.toppings[i] = item;
            i += 1;
        }
        assert(self.toppings@ =~= all_dragged(old(self).toppings@, from, to));
    }

    /// Moves the bread, and all that lies on it, to `pos`.
    pub fn set_pos(&mut self, pos: Point)
        ensures
            final(self)@ == old(self)@.put(pos),
    {
        let from = self.pos;
        self.drag(from, pos);
    }

    /// Offers `item` to the bread. Where the bread takes it, the item lies on
    /// the bread afterwards and nothing is handed back; where it does not,
    /// the item is handed back and the bread stays as it is.
    pub fn add(&mut self, item: Ingredient) -> (back: Option<Ingredient>)
        ensures
            back == if accepts(old(self)@.toppings, item.kind()) {
                None
            } else {
                Some(item)
            },
            final(self)@ == old(self)@.with(item),
    {
        let pos = self.pos;
        match item {
            Ingredient::Cookable(mut c) => {
                let ghost before = self.toppings@;
                if c.add_to(pos, &mut self.toppings) {
                    proof {
                        if !no_filling(before) {
                            let i = choose|i: int| lone_sausage(before, i);
                            assert(lone_sausage(before, i));
                        }
                    }
                    self.toppings.push(Ingredient::Cookable(c));
                    None
                } else {
                    Some(item)
                }
            },
            Ingredient::Onion(mut o) => {
                if o.add_to(pos, &self.toppings) {
                    self.toppings.push(Ingredient::Onion(o));
                    None
                } else {
                    Some(item)
                }
            },
            Ingredient::Squirt(mut s) => {
                if s.add_to(pos, &self.toppings) {
                    self.toppings.push(Ingredient::Squirt(s));
                    None
                } else {
                    Some(item)
                }
            },
        }
    }

    /// What lies on the bread, as a customer sees it.
    pub fn portions(&self) -> (p: Vec<crate::kinds::Portion>)
        ensures
            p@ == crate::ingredient::portions_of(self@.toppings),
    {
        let mut p: Vec<crate::kinds::Portion> = Vec::new();
        let mut i: usize = 0;
        while i < self.toppings.len()
            invariant
                i <= self.toppings.len(),
                p@.len() == i,
                forall|k: int| 0 <= k < i ==> p@[k] == self.toppings@[k].as_portion(),
            decreases self.toppings.len() - i,
        {
            p.push(self.toppings[i].portion());
            i += 1;
        }
        assert(p@ =~= crate::ingredient::portions_of(self@.toppings));
        p
    }
}


/// What a carrier never exceeds: two toppings of one kind are two sausages,
/// two fillings are of one kind, and there are no three fillings.
pub open spec fn within_limits(toppings: Seq<Ingredient>) -> bool {
    &&& forall|i: int, j: int|
        0 <= i < j < toppings.len() && (#[trigger] toppings[i]).kind() == (
        #[trigger] toppings[j]).kind() ==> toppings[i].kind() == Topping::Filling(
            crate::kinds::Filling::Sausage,
        )
    &&& forall|i: int, j: int|
        0 <= i < j < toppings.len() && (#[trigger] toppings[i]).kind() is Filling && (
        #[trigger] toppings[j]).kind() is Filling ==> toppings[i].kind() == toppings[j].kind()
    &&& forall|i: int, j: int, k: int|
        0 <= i < j < k < toppings.len() ==> !((#[trigger] toppings[i]).kind() is Filling && (
        #[trigger] toppings[j]).kind() is Filling && (#[trigger] toppings[k]).kind() is Filling)
}

/// A bread that carries onion takes no more onion.
pub proof fn lemma_second_onion_refused(bread: BreadView, item: Ingredient)
    requires
        has_onion(bread.toppings),
        item.kind() == Topping::Onion,
    ensures
        !accepts(bread.toppings, item.kind()),
        bread.with(item) == bread,
{
}

/// A bread that carries a condiment takes no more of the same.
pub proof fn lemma_same_condiment_refused(bread: BreadView, item: Ingredient)
    requires
        item.kind() is Condiment,
        has_kind(bread.toppings, item.kind()),
    ensures
        !accepts(bread.toppings, item.kind()),
        bread.with(item) == bread,
{
}

/// A bread that carries two fillings takes no third.
pub proof fn lemma_third_filling_refused(bread: BreadView, item: Ingredient, i: int, j: int)
    requires
        0 <= i < j < bread.toppings.len(),
        bread.toppings[i].kind() is Filling,
        bread.toppings[j].kind() is Filling,
        item.kind() is Filling,
    ensures
        !accepts(bread.toppings, item.kind()),
        bread.with(item) == bread,
{
    assert(!no_filling(bread.toppings));
    assert forall|k: int| !lone_sausage(bread.toppings, k) by {
        if lone_sausage(bread.toppings, k) {
            if k != i {
                assert(!(bread.toppings[i].kind() is Filling));
            } else {
                assert(!(bread.toppings[j].kind() is Filling));
            }
        }
    }
}

/// A bread that carries a patty takes no other filling, and a bread that
/// carries a filling takes no patty.
pub proof fn lemma_patty_stays_alone(bread: BreadView, item: Ingredient, i: int)
    requires
        0 <= i < bread.toppings.len(),
        bread.toppings[i].kind() is Filling,
        item.kind() is Filling,
        bread.toppings[i].kind() == Topping::Filling(crate::kinds::Filling::VeggiePatty)
            || item.kind() == Topping::Filling(crate::kinds::Filling::VeggiePatty),
    ensures
        !accepts(bread.toppings, item.kind()),
        bread.with(item) == bread,
{
    assert(!no_filling(bread.toppings));
    assert forall|k: int| !(item.kind() == Topping::Filling(crate::kinds::Filling::Sausage)
        && lone_sausage(bread.toppings, k)) by {
        if lone_sausage(bread.toppings, k) && k != i {
            assert(!(bread.toppings[i].kind() is Filling));
        }
    }
}

/// A bread without a filling takes a sausage and then a second one; after
/// that it takes no filling of any kind.
pub proof fn lemma_two_sausages_then_no_more(
    bread: BreadView,
    first: Cookable,
    second: Cookable,
    third: Cookable,
)
    requires
        no_filling(bread.toppings),
        first.kind == crate::kinds::Filling::Sausage,
        second.kind == crate::kinds::Filling::Sausage,
    ensures
        bread.with(Ingredient::Cookable(first)).toppings.len() == bread.toppings.len() + 1,
        bread.with(Ingredient::Cookable(first)).with(Ingredient::Cookable(second)).toppings.len()
            == bread.toppings.len() + 2,
        bread.with(Ingredient::Cookable(first)).with(Ingredient::Cookable(second)).with(
            Ingredient::Cookable(third),
        ) == bread.with(Ingredient::Cookable(first)).with(Ingredient::Cookable(second)),
{
    let n = bread.toppings.len() as int;
    let one = bread.with(Ingredient::Cookable(first));
    assert(one.toppings[n].kind() is Filling);
    assert(lone_sausage(one.toppings, n));
    assert(!no_filling(one.toppings));
    let i = choose|i: int| lone_sausage(one.toppings, i);
    assert(i == n) by {
        if i != n {
            assert(!(one.toppings[n].kind() is Filling));
        }
    }
    let two = one.with(Ingredient::Cookable(second));
    assert(two.toppings[n].kind() is Filling);
    assert(two.toppings[n + 1].kind() is Filling);
    lemma_third_filling_refused(two, Ingredient::Cookable(third), n, n + 1);
}

/// A bread with nothing on it is within the limits, and a bread that is
/// within the limits stays so whatever is offered to it.
pub proof fn lemma_with_keeps_limits(bread: BreadView, item: Ingredient)
    requires
        within_limits(bread.toppings),
    ensures
        within_limits(Seq::<Ingredient>::empty()),
        within_limits(bread.with(item).toppings),
{
    let s = bread.toppings;
    let n = s.len() as int;
    if accepts(s, item.kind()) {
        let after = bread.with(item).toppings;
        assert(after.len() == n + 1);
        assert(after[n].kind() == item.kind());
        match item {
            Ingredient::Cookable(c) => {
                if no_filling(s) {
                    assert forall|i: int| 0 <= i < n implies (#[trigger] after[i]).kind()
                        == s[i].kind() by {}
                    assert forall|i: int| 0 <= i < n implies !((#[trigger] after[i]).kind()
                        is Filling) by {
                        assert(!(s[i].kind() is Filling));
                    }
                } else {
                    let l = choose|l: int| lone_sausage(s, l);
                    assert(lone_sausage(s, l));
                    assert forall|i: int| 0 <= i < n implies (#[trigger] after[i]).kind()
                        == s[i].kind() by {}
                    assert forall|i: int| 0 <= i < n && i != l implies !((
                    #[trigger] after[i]).kind() is Filling) by {
                        assert(!(s[i].kind() is Filling));
                    }
                }
            },
            Ingredient::Onion(_) => {
                assert forall|i: int| 0 <= i < n implies (#[trigger] after[i]).kind()
                    == s[i].kind() && after[i].kind() != Topping::Onion by {
                    assert(s[i].kind() != Topping::Onion);
                }
            },
            Ingredient::Squirt(q) => {
                assert forall|i: int| 0 <= i < n implies (#[trigger] after[i]).kind()
                    == s[i].kind() && after[i].kind() != Topping::Condiment(q.condiment) by {
                    assert(s[i].kind() != Topping::Condiment(q.condiment));
                }
            },
        }
    }
}

} // verus!
