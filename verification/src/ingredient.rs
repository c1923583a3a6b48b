//! What can lie on a piece of bread, and the rules for adding to it.
use crate::cookable::Cookable;
use crate::fixed::{minus, plus, sat_add, sat_sub, Point};
use crate::geometry::Rectangle;
use crate::kinds::{Condiment, Filling, Portion, Topping};
use crate::onion::Onion;
use crate::squirt::Squirt;
use vstd::prelude::*;

verus! {

/// How far from the middle of the bread each of two sausages lies.
pub const SAUSAGE_OFFSET: i64 = 10_000_000;

/// A topping on a piece of bread.
#[derive(PartialEq, Eq, Clone, Copy, Debug)]
pub enum Ingredient {
    Cookable(Cookable),
    Onion(Onion),
    Squirt(Squirt),
}

impl Ingredient {
    /// The kind of topping.
    pub open spec fn kind(self) -> Topping {
        match self {
            Ingredient::Cookable(c) => Topping::Filling(c.kind),
            Ingredient::Onion(_) => Topping::Onion,
            Ingredient::Squirt(s) => Topping::Condiment(s.condiment),
        }
    }

    /// The topping as a customer sees it. A condiment is never cooked.
    pub open spec fn as_portion(self) -> Portion {
        match self {
            Ingredient::Cookable(c) => c.as_portion(),
            Ingredient::Onion(o) => o.as_portion(),
            Ingredient::Squirt(s) => Portion {
                kind: Topping::Condiment(s.condiment),
                rare: 0,
                done: 0,
            },
        }
    }

    /// Where the topping lies.
    pub open spec fn place(self) -> Point {
        match self {
            Ingredient::Cookable(c) => c.pos,
            Ingredient::Onion(o) => o.pos,
            Ingredient::Squirt(s) => s.pos,
        }
    }

    /// The box around the topping.
    pub open spec fn extent(self) -> Rectangle {
        match self {
            Ingredient::Cookable(c) => c.extent(),
            Ingredient::Onion(o) => o.bounds,
            Ingredient::Squirt(s) => s.bounds,
        }
    }

    /// The topping moved as a pointer drag from `from` to `to` moves it.
    pub open spec fn dragged(self, from: Point, to: Point) -> Ingredient {
        match self {
            Ingredient::Cookable(c) => Ingredient::Cookable(
                Cookable { pos: c.pos.dragged(from, to), ..c },
            ),
            Ingredient::Onion(o) => Ingredient::Onion(o.dragged(from, to)),
            Ingredient::Squirt(s) => Ingredient::Squirt(s.dragged(from, to)),
        }
    }

    /// The topping put at `pos`.
    pub open spec fn put(self, pos: Point) -> Ingredient {
        match self {
            Ingredient::Cookable(c) => Ingredient::Cookable(Cookable { pos, ..c }),
            Ingredient::Onion(o) => Ingredient::Onion(o.dragged(o.pos, pos)),
            Ingredient::Squirt(s) => Ingredient::Squirt(s.dragged(s.pos, pos)),
        }
    }

    pub fn topping(&self) -> (t: Topping)
        ensures
            t == self.kind(),
    {
        match self {
            Ingredient::Cookable(c) => Topping::Filling(c.kind),
            Ingredient::Onion(_) => Topping::Onion,
            Ingredient::Squirt(s) => Topping::Condiment(s.condiment),
        }
    }

    /// The cook levels of the least and of the most cooked part.
    pub fn cooked(&self) -> (range: (i64, i64))
        ensures
            range.0 == self.as_portion().rare,
            range.1 == self.as_portion().done,
    {
        match self {
            Ingredient::Cookable(c) => c.cooked(),
            Ingredient::Onion(o) => o.cooked(),
            Ingredient::Squirt(_) => (0, 0),
        }
    }

    /// The topping as a customer sees it.
    pub fn portion(&self) -> (p: Portion)
        ensures
            p == self.as_portion(),
    {
        let range = self.cooked();
        Portion { kind: self.topping(), rare: range.0, done: range.1 }
    }

    pub fn bounds(&self) -> (r: Rectangle)
        ensures
            r == self.extent(),
    {
        match self {
            Ingredient::Cookable(c) => c.bounds(),
            Ingredient::Onion(o) => o.bounds(),
            Ingredient::Squirt(s) => s.bounds(),
        }
    }

    /// Moves the topping as a pointer drag from `from` to `to` does.
    pub fn drag(&mut self, from: Point, to: Point)
        ensures
            *final(self) == old(self).dragged(from, to),
    {
        match self {
            Ingredient::Cookable(c) => c.drag(from, to),
            Ingredient::Onion(o) => o.drag(from, to),
            Ingredient::Squirt(s) => s.drag(from, to),
        }
    }

    pub fn set_pos(&mut self, pos: Point)
        ensures
            *final(self) == old(self).put(pos),
    {
        match self {
            Ingredient::Cookable(c) => c.set_pos(pos),
            Ingredient::Onion(o) => o.set_pos(pos),
            Ingredient::Squirt(s) => s.set_pos(pos),
        }
    }
}

/// The kinds of the toppings, in their order.
pub open spec fn kinds_of(toppings: Seq<Ingredient>) -> Seq<Topping> {
    Seq::new(toppings.len(), |i: int| toppings[i].kind())
}

/// The toppings as a customer sees them, in their order.
pub open spec fn portions_of(toppings: Seq<Ingredient>) -> Seq<Portion> {
    Seq::new(toppings.len(), |i: int| toppings[i].as_portion())
}

/// Some topping is of kind `kind`.
pub open spec fn has_kind(toppings: Seq<Ingredient>, kind: Topping) -> bool {
    exists|i: int| 0 <= i < toppings.len() && (#[trigger] toppings[i]).kind() == kind
}

/// There is onion among the toppings.
pub open spec fn has_onion(toppings: Seq<Ingredient>) -> bool {
    has_kind(toppings, Topping::Onion)
}

/// This condiment is among the toppings.
pub open spec fn has_condiment(toppings: Seq<Ingredient>, condiment: Condiment) -> bool {
    has_kind(toppings, Topping::Condiment(condiment))
}

/// There is no filling among the toppings.
pub open spec fn no_filling(toppings: Seq<Ingredient>) -> bool {
    forall|i: int| 0 <= i < toppings.len() ==> !((#[trigger] toppings[i]).kind() is Filling)
}

/// The topping at `i` is a sausage, and it is the only filling.
pub open spec fn lone_sausage(toppings: Seq<Ingredient>, i: int) -> bool {
    &&& 0 <= i < toppings.len()
    &&& toppings[i].kind() == Topping::Filling(Filling::Sausage)
    &&& forall|j: int|
        0 <= j < toppings.len() && j != i ==> !((#[trigger] toppings[j]).kind() is Filling)
}

/// Whether a filling of kind `kind` may join the toppings: the first filling
/// always, a second one only as a sausage beside a sausage.
pub open spec fn admits_filling(toppings: Seq<Ingredient>, kind: Filling) -> bool {
    no_filling(toppings) || (kind == Filling::Sausage && exists|i: int|
        lone_sausage(toppings, i))
}

/// Whether some topping is of kind `kind`.
pub fn find_kind(toppings: &Vec<Ingredient>, kind: Topping) -> (found: bool)
    ensures
        found == has_kind(toppings@, kind),
{
    let mut i: usize = 0;
    while i < toppings.len()
        invariant
            i <= toppings.len(),
            forall|k: int| 0 <= k < i ==> (#[trigger] toppings@[k]).kind() != kind,
        decreases toppings.len() - i,
    {
        if toppings[i].topping() == kind {
            return true;
        }
        i += 1;
    }
    false
}

/// Whether this condiment is among the toppings.
pub fn find_condiment(toppings: &Vec<Ingredient>, condiment: Condiment) -> (found: bool)
    ensures
        found == has_condiment(toppings@, condiment),
{
    find_kind(toppings, Topping::Condiment(condiment))
}

/// The place of the first filling at or after `from`, if there is one.
pub fn next_filling(toppings: &Vec<Ingredient>, from: usize) -> (found: Option<usize>)
    ensures
        match found {
            Some(i) => from <= i < toppings.len() && toppings@[i as int].kind() is Filling
                && forall|k: int|
                from <= k < i ==> !((#[trigger] toppings@[k]).kind() is Filling),
            None => forall|k: int|
                from <= k < toppings.len() ==> !((#[trigger] toppings@[k]).kind() is Filling),
        },
{
    let mut i: usize = from;
    while i < toppings.len()
        invariant
            from <= i,
            forall|k: int| from <= k < i ==> !((#[trigger] toppings@[k]).kind() is Filling),
        decreases toppings.len() - i,
    {
        match toppings[i].topping() {
            Topping::Filling(_) => {
                return Some(i);
            },
            _ => {},
        }
        i += 1;
    }
    None
}

impl Cookable {
    /// Offers the filling to a piece of bread at `pos` that carries `others`.
    ///
    /// The first filling is taken and put on the middle of the bread. A
    /// second one is taken only as a sausage beside a single sausage: the two
    /// then lie left and right of the middle. Where the filling is not taken,
    /// nothing changes.
    pub fn add_to(&mut self, pos: Point, others: &mut Vec<Ingredient>) -> (taken: bool)
        ensures
            taken == admits_filling(old(others)@, old(self).kind),
            !taken ==> *final(self) == *old(self) && final(others)@ == old(others)@,
            taken && no_filling(old(others)@) ==> *final(self) == (Cookable { pos, ..*old(self) })
                && final(others)@ == old(others)@,
            taken && !no_filling(old(others)@) ==> *final(self) == (Cookable {
                pos: Point { x: plus(pos.x as int, SAUSAGE_OFFSET as int) as i64, y: pos.y },
                ..*old(self)
            }),
            forall|i: int|
                taken && lone_sausage(old(others)@, i) ==> final(others)@ == old(others)@.update(
                    i,
                    old(others)@[i].put(
                        Point { x: minus(pos.x as int, SAUSAGE_OFFSET as int) as i64, y: pos.y },
                    ),
                ),
    {
        match next_filling(others, 0) {
            None => {
                self.pos = pos;
                true
            },
            Some(first) => {
                let partner_is_sausage = match others[first].topping() {
                    Topping::Filling(Filling::Sausage) => true,
                    _ => false,
                };
                let alone = next_filling(others, first + 1).is_none();
                let both_sausages = match self.kind {
                    Filling::Sausage => partner_is_sausage,
                    Filling::VeggiePatty => false,
                };
                assert(!no_filling(others@));
                if both_sausages && alone {
                    assert(lone_sausage(others@, first as int));
                    assert forall|i: int| lone_sausage(others@, i) implies i == first by {
                        if i != first {
                            assert(!(others@[first as int].kind() is Filling));
                        }
                    }
                    self.pos = Point { x: sat_add(pos.x, SAUSAGE_OFFSET), y: pos.y };
                    let mut partner = others[first];
                    partner.set_pos(Point { x: sat_sub(pos.x, SAUSAGE_OFFSET), y: pos.y });
                    others[first] = partner;
                    true
                } else {
                    assert forall|i: int| !(self.kind == Filling::Sausage && lone_sausage(
                        others@,
                        i,
                    )) by {
                        if self.kind == Filling::Sausage && lone_sausage(others@, i) {
                            if i != first {
                                assert(!(others@[first as int].kind() is Filling));
                            } else if !alone {
                                let second = choose|k: int|
                                    first < k < others@.len() && (#[trigger] others@[k]).kind()
                                        is Filling;
                                assert(!(others@[second].kind() is Filling));
                            }
                        }
                    }
                    false
                }
            },
        }
    }
}

impl Onion {
    /// Offers the onion to a piece of bread at `pos` that carries `others`.
    /// It is taken, and moved onto the bread, unless the bread carries onion
    /// already.
    pub fn add_to(&mut self, pos: Point, others: &Vec<Ingredient>) -> (taken: bool)
        ensures
            taken == !has_onion(others@),
            taken ==> *final(self) == old(self).dragged(old(self).pos, pos),
            !taken ==> *final(self) == *old(self),
    {
        if find_kind(others, Topping::Onion) {
            false
        } else {
            self.set_pos(pos);
            true
        }
    }
}

} // verus!
