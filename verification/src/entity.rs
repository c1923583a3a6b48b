//! Everything that a scene holds, and what each kind can do.
use crate::board::{BoardView, ChoppingBoard};
use crate::bread::{accepts, Bread, BreadView};
use crate::cookable::Cookable;
use crate::customer::{Customer, CustomerView, Delivery, Taste};
use crate::fixed::Point;
use crate::geometry::Rectangle;
use crate::hotplate::{Hotplate, HotplateView, Table};
use crate::ingredient::{has_condiment, Ingredient};
use crate::kinds::{Mood, Topping};
use crate::onion::{Onion, OnionPiece, Placement, Shuffle};
use crate::queue::{Queue, QueueRoll, QueueView};
use crate::smoke::{puffed, Smoke, SmokeRoll, SMOKE_LIFETIME};
use crate::squirt::{Bottle, Squirt, SquirtRoll};
use vstd::prelude::*;

verus! {

/// One thing in the scene.
#[derive(Debug)]
pub enum Entity {
    Cookable(Cookable),
    Onion(Onion),
    Hotplate(Hotplate),
    Table(Table),
    Bread(Bread),
    ChoppingBoard(ChoppingBoard),
    Bottle(Bottle),
    Squirt(Squirt),
    Customer(Customer),
    Queue(Queue),
    Smoke(Smoke),
}

/// One thing in the scene, as a value.
pub enum EntityView {
    Cookable(Cookable),
    Onion(Onion),
    Hotplate(HotplateView),
    Table(Table),
    Bread(BreadView),
    ChoppingBoard(BoardView),
    Bottle(Bottle),
    Squirt(Squirt),
    Customer(CustomerView),
    Queue(QueueView),
    Smoke(Smoke),
}

impl View for Entity {
    type V = EntityView;

    open spec fn view(&self) -> EntityView {
        match self {
            Entity::Cookable(c) => EntityView::Cookable(*c),
            Entity::Onion(o) => EntityView::Onion(*o),
            Entity::Hotplate(h) => EntityView::Hotplate(h@),
            Entity::Table(t) => EntityView::Table(*t),
            Entity::Bread(b) => EntityView::Bread(b@),
            Entity::ChoppingBoard(b) => EntityView::ChoppingBoard(b@),
            Entity::Bottle(b) => EntityView::Bottle(*b),
            Entity::Squirt(s) => EntityView::Squirt(*s),
            Entity::Customer(c) => EntityView::Customer(c@),
            Entity::Queue(q) => EntityView::Queue(q@),
            Entity::Smoke(s) => EntityView::Smoke(*s),
        }
    }
}

/// What a pick got.
#[derive(Debug)]
pub enum Selection {
    /// Nothing.
    Nothing,
    /// The entity that was asked.
    This,
    /// A new entity that the one asked has handed out.
    New(Entity),
}

/// What became of a topping that was offered to a carrier.
#[derive(Debug)]
pub enum Added {
    /// The topping lies on the carrier now.
    This,
    /// Something new lies on the carrier; the topping offered is handed
    /// back.
    New(Entity),
    /// Nothing was added; the topping offered is handed back.
    Refused(Entity),
}

/// The draws of one tick of one entity.
#[derive(PartialEq, Eq, Clone, Copy, Debug)]
pub struct Roll {
    pub smoke: SmokeRoll,
    pub queue: QueueRoll,
}

impl Roll {
    pub open spec fn in_range(self) -> bool {
        self.smoke.in_range() && self.queue.in_range()
    }

    pub fn draw() -> (roll: Roll)
        ensures
            roll.in_range(),
    {
        Roll { smoke: crate::smoke::draw_smoke_roll(), queue: QueueRoll::draw() }
    }
}

/// The entities as values, in their order.
pub open spec fn entity_views(entities: Seq<Entity>) -> Seq<EntityView> {
    Seq::new(entities.len(), |i: int| entities[i]@)
}

/// The puff as a list: one entity or none.
pub open spec fn smoke_list(smoke: Option<Smoke>) -> Seq<EntityView> {
    match smoke {
        Some(s) => seq![EntityView::Smoke(s)],
        None => Seq::empty(),
    }
}

impl EntityView {
    /// The box around the entity.
    pub open spec fn extent(self) -> Rectangle {
        match self {
            EntityView::Cookable(c) => c.extent(),
            EntityView::Onion(o) => o.bounds,
            EntityView::Hotplate(h) => h.bounds,
            EntityView::Table(t) => t.bounds,
            EntityView::Bread(b) => b.extent(),
            EntityView::ChoppingBoard(b) => b.extent(),
            EntityView::Bottle(b) => b.extent(),
            EntityView::Squirt(s) => s.bounds,
            EntityView::Customer(c) => c.extent(),
            EntityView::Queue(q) => q.extent(),
            EntityView::Smoke(s) => s.extent(),
        }
    }

    /// What kind of topping the entity makes, if any.
    pub open spec fn topping(self) -> Option<Topping> {
        match self {
            EntityView::Cookable(c) => Some(Topping::Filling(c.kind)),
            EntityView::Onion(_) => Some(Topping::Onion),
            EntityView::Squirt(s) => Some(Topping::Condiment(s.condiment)),
            EntityView::Bottle(b) => Some(Topping::Condiment(b.condiment)),
            _ => None,
        }
    }

    /// The heat that the entity gives at `pos`.
    pub open spec fn heat_at(self, pos: Point) -> int {
        match self {
            EntityView::Hotplate(h) => h.heat_at(pos),
            _ => 0,
        }
    }

    /// Whether the entity is gone and should leave the scene.
    pub open spec fn expired(self) -> bool {
        match self {
            EntityView::Smoke(s) => s.age > SMOKE_LIFETIME,
            _ => false,
        }
    }

    /// The cook levels of the least and of the most cooked part.
    pub open spec fn cooked(self) -> (i64, i64) {
        match self {
            EntityView::Cookable(c) => (c.as_portion().rare, c.as_portion().done),
            EntityView::Onion(o) => (o.as_portion().rare, o.as_portion().done),
            _ => (0, 0),
        }
    }

    /// The entity at the heat `heat`. Only what cooks takes heat.
    pub open spec fn warmed(self, heat: i64) -> EntityView {
        match self {
            EntityView::Cookable(c) => EntityView::Cookable(Cookable { heat, ..c }),
            EntityView::Onion(o) => EntityView::Onion(Onion { heat, ..o }),
            _ => self,
        }
    }

    /// The entity after `dt` seconds.
    pub open spec fn ticked(self, dt: i64, taste: Taste, roll: Roll) -> EntityView {
        match self {
            EntityView::Cookable(c) => EntityView::Cookable(c.cooked_for(dt)),
            EntityView::Onion(o) => EntityView::Onion(o.cooked_for(dt)),
            EntityView::Smoke(s) => EntityView::Smoke(s.aged(dt)),
            EntityView::Queue(q) => EntityView::Queue(q.ticked(dt, taste, roll.queue)),
            _ => self,
        }
    }

    /// What the entity gives off in `dt` seconds.
    pub open spec fn spawned(self, dt: i64, roll: Roll) -> Seq<EntityView> {
        match self {
            EntityView::Cookable(c) => smoke_list(
                puffed(c.extent(), c.cooked_for(dt).bottom_cooked, dt, c.heat, roll.smoke),
            ),
            EntityView::Onion(o) => smoke_list(
                puffed(o.bounds, o.cooked_for(dt).layers@[0].cooked, dt, o.heat, roll.smoke),
            ),
            _ => Seq::empty(),
        }
    }

    /// The entity after `dt` seconds in the hand.
    pub open spec fn held_for(self, dt: i64) -> EntityView {
        match self {
            EntityView::ChoppingBoard(b) => EntityView::ChoppingBoard(b.chopped_for(dt)),
            _ => self,
        }
    }

    /// The entity picked up.
    pub open spec fn grabbed(self) -> EntityView {
        match self {
            EntityView::Cookable(c) => EntityView::Cookable(c.turned()),
            _ => self,
        }
    }

    /// The entity put down.
    pub open spec fn put_down(self, picks: Shuffle, fresh: [[Placement; 3]; 4]) -> EntityView {
        match self {
            EntityView::Onion(o) => EntityView::Onion(o.put_down(picks, fresh)),
            _ => self,
        }
    }

    /// The entity moved as a pointer drag from `from` to `to` moves it.
    pub open spec fn dragged(self, from: Point, to: Point) -> EntityView {
        match self {
            EntityView::Cookable(c) => EntityView::Cookable(
                Cookable { pos: c.pos.dragged(from, to), ..c },
            ),
            EntityView::Onion(o) => EntityView::Onion(o.dragged(from, to)),
            EntityView::Bread(b) => EntityView::Bread(b.dragged(from, to)),
            EntityView::Squirt(s) => EntityView::Squirt(s.dragged(from, to)),
            EntityView::Bottle(b) => EntityView::Bottle(
                Bottle { pos: b.pos.dragged(from, to), ..b },
            ),
            _ => self,
        }
    }

    /// The entity put at `pos`.
    pub open spec fn put(self, pos: Point) -> EntityView {
        match self {
            EntityView::Cookable(c) => EntityView::Cookable(Cookable { pos, ..c }),
            EntityView::Onion(o) => EntityView::Onion(o.dragged(o.pos, pos)),
            EntityView::Bread(b) => EntityView::Bread(b.put(pos)),
            EntityView::Squirt(s) => EntityView::Squirt(s.dragged(s.pos, pos)),
            EntityView::Bottle(b) => EntityView::Bottle(Bottle { pos, ..b }),
            EntityView::Customer(c) => EntityView::Customer(c.put(pos)),
            _ => self,
        }
    }

    /// Whether a pick at `pos` gets the entity, or something from it.
    pub open spec fn answers(self, pos: Point) -> bool {
        match self {
            EntityView::Cookable(c) => c.extent().holds(pos),
            EntityView::Onion(o) => o.bounds.holds(pos),
            EntityView::Bread(b) => b.extent().holds(pos),
            EntityView::Squirt(s) => s.bounds.holds(pos),
            EntityView::Bottle(b) => b.extent().holds(pos),
            EntityView::ChoppingBoard(b) => b.answers(pos),
            _ => false,
        }
    }

    /// What a pick at `pos` takes out of the entity, if anything.
    pub open spec fn hands_out(self, pos: Point) -> Option<EntityView> {
        match self {
            EntityView::ChoppingBoard(b) => if b.answers(pos) && b.ready() {
                Some(EntityView::Onion(b.onions.last()))
            } else {
                None
            },
            _ => None,
        }
    }

    /// The entity after a pick at `pos`.
    pub open spec fn picked(self, pos: Point, batch: [[[OnionPiece; 3]; 4]; 4]) -> EntityView {
        match self {
            EntityView::ChoppingBoard(b) => EntityView::ChoppingBoard(b.picked(pos, batch)),
            _ => self,
        }
    }

    /// The entity as a topping on a piece of bread; only for what
    /// [`EntityView::topping`] names, and not for a bottle.
    pub open spec fn as_ingredient(self) -> Ingredient {
        match self {
            EntityView::Cookable(c) => Ingredient::Cookable(c),
            EntityView::Onion(o) => Ingredient::Onion(o),
            EntityView::Squirt(s) => Ingredient::Squirt(s),
            _ => arbitrary(),
        }
    }

    /// Whether toppings `others` on a piece of bread leave room for the
    /// entity, or for what it leaves there.
    pub open spec fn fits(self, others: Seq<Ingredient>) -> bool {
        match self.topping() {
            Some(kind) => accepts(others, kind),
            None => false,
        }
    }

    /// Whether the entity, as a carrier, adds anything when `candidate` is
    /// offered to it. Only bread does, and only as [`accepts`] says.
    #[verifier::opaque]
    pub open spec fn welcomes(self, candidate: EntityView) -> bool {
        match (self, candidate.topping()) {
            (EntityView::Bread(b), Some(kind)) => accepts(b.toppings, kind),
            _ => false,
        }
    }

    /// The carrier after `candidate` was offered to it. A topping that is
    /// taken lies on the bread as [`BreadView::with`] says; a bottle leaves
    /// the squirt that `roll` shapes.
    #[verifier::opaque]
    pub open spec fn topped(self, candidate: EntityView, roll: SquirtRoll) -> EntityView {
        match self {
            EntityView::Bread(b) => if self.welcomes(candidate) {
                match candidate {
                    EntityView::Bottle(bottle) => EntityView::Bread(
                        BreadView {
                            toppings: b.toppings.push(
                                Ingredient::Squirt(Squirt::drawn(bottle.condiment, b.pos, roll)),
                            ),
                            ..b
                        },
                    ),
                    _ => EntityView::Bread(b.with(candidate.as_ingredient())),
                }
            } else {
                self
            },
            _ => self,
        }
    }

    /// Whether a candidate that is taken stays in the scene: a bottle does.
    pub open spec fn stays_when_taken(self) -> bool {
        self is Bottle
    }

    /// The mood that the meal leaves, where the entity takes it.
    #[verifier::opaque]
    pub open spec fn response(self, meal: BreadView) -> Option<Mood> {
        match self {
            EntityView::Customer(c) => if c.takes(meal) {
                Some(
                    crate::scoring::judged(
                        crate::ingredient::portions_of(c.order.toppings),
                        crate::ingredient::portions_of(meal.toppings),
                    ),
                )
            } else {
                None
            },
            EntityView::Queue(q) => q.response(meal),
            _ => None,
        }
    }

    /// The entity after `meal` was handed to it.
    #[verifier::opaque]
    pub open spec fn served(self, meal: BreadView) -> EntityView {
        match self {
            EntityView::Customer(c) => if c.takes(meal) {
                EntityView::Customer(c.fed(meal))
            } else {
                self
            },
            EntityView::Queue(q) => EntityView::Queue(q.served(meal)),
            _ => self,
        }
    }
}

impl Entity {
    pub fn bounds(&self) -> (r: Rectangle)
        ensures
            r == self@.extent(),
    {
        match self {
            Entity::Cookable(c) => c.bounds(),
            Entity::Onion(o) => o.bounds(),
            Entity::Hotplate(h) => h.bounds(),
            Entity::Table(t) => t.bounds(),
            Entity::Bread(b) => b.bounds(),
            Entity::ChoppingBoard(b) => b.bounds(),
            Entity::Bottle(b) => b.bounds(),
            Entity::Squirt(s) => s.bounds(),
            Entity::Customer(c) => c.bounds(),
            Entity::Queue(q) => q.bounds(),
            Entity::Smoke(s) => s.bounds(),
        }
    }

    /// Picks at `pos`. Fillings, onions, bread, squirts and bottles are got
    /// where the pointer is inside them; the chopping board answers as
    /// [`ChoppingBoard::select`] says; nothing else can be picked.
    pub fn select(&mut self, pos: Point, batch: &[[[OnionPiece; 3]; 4]; 4]) -> (picked: Selection)
        ensures
            final(self)@ == old(self)@.picked(pos, *batch),
            !old(self)@.answers(pos) ==> picked is Nothing,
            old(self)@.answers(pos) && old(self)@.hands_out(pos) is None ==> picked is This,
            old(self)@.answers(pos) && old(self)@.hands_out(pos) is Some ==> picked is New
                && picked->New_0@ == old(self)@.hands_out(pos)->Some_0,
    {
        let hit = match self {
            Entity::Cookable(c) => c.select(pos),
            Entity::Onion(o) => o.select(pos),
            Entity::Bread(b) => b.select(pos),
            Entity::Squirt(s) => s.select(pos),
            Entity::Bottle(b) => b.select(pos),
            Entity::ChoppingBoard(b) => {
                return b.select(pos, batch);
            },
            _ => false,
        };
        if hit {
            Selection::This
        } else {
            Selection::Nothing
        }
    }

    /// Lets `dt` seconds pass, as the draws say. What the entity gives off
    /// is handed back.
    pub fn update_with(&mut self, dt: i64, taste: &Taste, roll: &Roll) -> (spawned: Vec<Entity>)
        ensures
            final(self)@ == old(self)@.ticked(dt, *taste, *roll),
            entity_views(spawned@) == old(self)@.spawned(dt, *roll),
    {
        let mut spawned: Vec<Entity> = Vec::new();
        let smoke = match self {
            Entity::Cookable(c) => c.update_with(dt, &roll.smoke),
            Entity::Onion(o) => o.update_with(dt, &roll.smoke),
            Entity::Smoke(s) => {
                s.update(dt);
                None
            },
            Entity::Queue(q) => {
                q.update_with(dt, taste, &roll.queue);
                None
            },
            _ => None,
        };
        match smoke {
            Some(s) => {
                spawned.push(Entity::Smoke(s));
            },
            None => {},
        }
        assert(entity_views(spawned@) =~= old(self)@.spawned(dt, *roll));
        spawned
    }

    /// Lets `dt` seconds pass; what happens by chance is drawn.
    pub fn update(&mut self, dt: i64, taste: &Taste) -> (spawned: Vec<Entity>)
        ensures
            exists|roll: Roll|
                roll.in_range() && final(self)@ == #[trigger] old(self)@.ticked(dt, *taste, roll)
                    && entity_views(spawned@) == old(self)@.spawned(dt, roll),
    {
        let roll = Roll::draw();
        self.update_with(dt, taste, &roll)
    }

    /// Lets `dt` seconds pass in the hand: the chopping board chops.
    pub fn update_selected(&mut self, dt: i64)
        ensures
            final(self)@ == old(self)@.held_for(dt),
    {
        match self {
            Entity::ChoppingBoard(b) => b.update_selected(dt),
            _ => {},
        }
    }

    /// Picks the entity up: a filling is turned over and leaves the heat.
    pub fn grab(&mut self)
        ensures
            final(self)@ == old(self)@.grabbed(),
    {
        match self {
            Entity::Cookable(c) => c.grab(),
            _ => {},
        }
    }

    /// Puts the entity down as the draws say: an onion is scrambled and
    /// leaves the heat.
    pub fn drop_with(&mut self, picks: &Shuffle, fresh: &[[Placement; 3]; 4])
        ensures
            final(self)@ == old(self)@.put_down(*picks, *fresh),
    {
        match self {
            Entity::Onion(o) => o.drop_with(picks, fresh),
            _ => {},
        }
    }

    /// Puts the entity down: an onion is scrambled and leaves the heat.
    pub fn drop(&mut self, fresh: &[[Placement; 3]; 4])
        ensures
            exists|picks: Shuffle|
                picks.in_range() && final(self)@ == #[trigger] old(self)@.put_down(picks, *fresh),
    {
        let picks = Shuffle::draw();
        self.drop_with(&picks, fresh);
    }

    /// Moves the entity as a pointer drag from `from` to `to` does. Bread
    /// takes its toppings along. What is fixed stays.
    pub fn drag(&mut self, from: Point, to: Point)
        ensures
            final(self)@ == old(self)@.dragged(from, to),
    {
        match self {
            Entity::Cookable(c) => c.drag(from, to),
            Entity::Onion(o) => o.drag(from, to),
            Entity::Bread(b) => b.drag(from, to),
            Entity::Squirt(s) => s.drag(from, to),
            Entity::Bottle(b) => b.drag(from, to),
            _ => {},
        }
    }

    pub fn set_pos(&mut self, pos: Point)
        ensures
            final(self)@ == old(self)@.put(pos),
    {
        match self {
            Entity::Cookable(c) => c.set_pos(pos),
            Entity::Onion(o) => o.set_pos(pos),
            Entity::Bread(b) => b.set_pos(pos),
            Entity::Squirt(s) => s.set_pos(pos),
            Entity::Bottle(b) => b.set_pos(pos),
            Entity::Customer(c) => c.set_pos(pos),
            _ => {},
        }
    }

    /// What kind of topping the entity makes, if any.
    pub fn topping(&self) -> (t: Option<Topping>)
        ensures
            t == self@.topping(),
    {
        match self {
            Entity::Cookable(c) => c.topping(),
            Entity::Onion(o) => o.topping(),
            Entity::Squirt(s) => s.topping(),
            Entity::Bottle(b) => b.topping(),
            _ => None,
        }
    }

    /// Offers the entity to a piece of bread at `pos` that carries `others`,
    /// with the draws for a squirt that a bottle may leave.
    ///
    /// A filling, an onion or a squirt that fits is taken: it is moved onto
    /// the bread, and a sausage that lies there makes room. A bottle that
    /// fits hands out a new squirt and stays as it is. Nothing else is ever
    /// taken, and what is not taken changes nothing.
    pub fn add_to_with(&mut self, pos: Point, others: &mut Vec<Ingredient>, roll: &SquirtRoll) -> (taken:
        Selection)
        ensures
            !old(self)@.fits(old(others)@) ==> taken is Nothing && final(self)@ == old(self)@
                && final(others)@ == old(others)@,
            old(self)@.fits(old(others)@) && old(self)@ is Bottle ==> final(self)@ == old(self)@
                && final(others)@ == old(others)@ && taken is New && taken->New_0@
                == EntityView::Squirt(Squirt::drawn(old(self)@->Bottle_0.condiment, pos, *roll)),
            old(self)@.fits(old(others)@) && !(old(self)@ is Bottle) ==> taken is This && final(others)@.push(final(self)@.as_ingredient()) == crate::bread::arranged(
                old(others)@,
                pos,
                old(self)@.as_ingredient(),
            ),
    {
        match self {
            Entity::Cookable(c) => {
                let ghost before = others@;
                if c.add_to(pos, others) {
                    proof {
                        if !crate::ingredient::no_filling(before) {
                            let i = choose|i: int| crate::ingredient::lone_sausage(before, i);
                            assert(crate::ingredient::lone_sausage(before, i));
                        }
                    }
                    Selection::This
                } else {
                    Selection::Nothing
                }
            },
            Entity::Onion(o) => {
                if o.add_to(pos, others) {
                    Selection::This
                } else {
                    Selection::Nothing
                }
            },
            Entity::Squirt(s) => {
                if s.add_to(pos, others) {
                    Selection::This
                } else {
                    Selection::Nothing
                }
            },
            Entity::Bottle(b) => {
                match b.add_to_with(pos, others, roll) {
                    Some(squirt) => Selection::New(Entity::Squirt(squirt)),
                    None => Selection::Nothing,
                }
            },
            _ => Selection::Nothing,
        }
    }

    /// Offers the entity to a piece of bread at `pos` that carries `others`.
    /// A bottle hands out a squirt of a random shape.
    pub fn add_to(&mut self, pos: Point, others: &mut Vec<Ingredient>) -> (taken: Selection)
        ensures
            !old(self)@.fits(old(others)@) ==> taken is Nothing && final(self)@ == old(self)@
                && final(others)@ == old(others)@,
            old(self)@.fits(old(others)@) && old(self)@ is Bottle ==> final(self)@ == old(self)@
                && final(others)@ == old(others)@ && taken is New && exists|roll: SquirtRoll|
                roll.in_range() && taken->New_0@ == EntityView::Squirt(
                    #[trigger] Squirt::drawn(old(self)@->Bottle_0.condiment, pos, roll),
                ),
            old(self)@.fits(old(others)@) && !(old(self)@ is Bottle) ==> taken is This && final(others)@.push(final(self)@.as_ingredient()) == crate::bread::arranged(
                old(others)@,
                pos,
                old(self)@.as_ingredient(),
            ),
    {
        let roll = SquirtRoll::draw();
        self.add_to_with(pos, others, &roll)
    }

    /// Offers `candidate` to the entity as to a carrier, with the draws for
    /// a squirt that a bottle may leave.
    ///
    /// Only bread takes anything, and only as [`accepts`] says. A topping
    /// that is taken lies on the bread from then on. A bottle leaves a
    /// squirt and is handed back. What is not taken is handed back as it
    /// was.
    pub fn add_topping_with(&mut self, candidate: Entity, roll: &SquirtRoll) -> (added: Added)
        ensures
            final(self)@ == old(self)@.topped(candidate@, *roll),
            !old(self)@.welcomes(candidate@) ==> final(self)@ == old(self)@ && added
                == Added::Refused(candidate),
            old(self)@.welcomes(candidate@) && candidate@.stays_when_taken() ==> added
                == Added::New(candidate),
            old(self)@.welcomes(candidate@) && !candidate@.stays_when_taken() ==> added is This,
    {
        reveal(EntityView::welcomes);
        reveal(EntityView::topped);
        match self {
            Entity::Bread(bread) => {
                match candidate {
                    Entity::Cookable(c) => {
                        match bread.add(Ingredient::Cookable(c)) {
                            None => Added::This,
                            Some(_) => Added::Refused(Entity::Cookable(c)),
                        }
                    },
                    Entity::Onion(o) => {
                        match bread.add(Ingredient::Onion(o)) {
                            None => Added::This,
                            Some(_) => Added::Refused(Entity::Onion(o)),
                        }
                    },
                    Entity::Squirt(s) => {
                        match bread.add(Ingredient::Squirt(s)) {
                            None => Added::This,
                            Some(_) => Added::Refused(Entity::Squirt(s)),
                        }
                    },
                    Entity::Bottle(bottle) => {
                        match bottle.add_to_with(bread.pos, &bread.toppings, roll) {
                            Some(squirt) => {
                                bread.toppings.push(Ingredient::Squirt(squirt));
                                Added::New(Entity::Bottle(bottle))
                            },
                            None => Added::Refused(Entity::Bottle(bottle)),
                        }
                    },
                    other => Added::Refused(other),
                }
            },
            _ => Added::Refused(candidate),
        }
    }

    /// Offers `candidate` to the entity as to a carrier.
    pub fn add_topping(&mut self, candidate: Entity) -> (added: Added)
        ensures
            exists|roll: SquirtRoll|
                roll.in_range() && final(self)@ == #[trigger] old(self)@.topped(candidate@, roll),
            !old(self)@.welcomes(candidate@) ==> added == Added::Refused(candidate),
            old(self)@.welcomes(candidate@) && candidate@.stays_when_taken() ==> added
                == Added::New(candidate),
            old(self)@.welcomes(candidate@) && !candidate@.stays_when_taken() ==> added is This,
    {
        let roll = SquirtRoll::draw();
        self.add_topping_with(candidate, &roll)
    }

    /// Sets the heat under the entity. Only what cooks takes heat.
    pub fn set_heat(&mut self, heat: i64)
        ensures
            final(self)@ == old(self)@.warmed(heat),
    {
        match self {
            Entity::Cookable(c) => c.set_heat(heat),
            Entity::Onion(o) => o.set_heat(heat),
            _ => {},
        }
    }

    /// The heat that the entity gives at `pos`: none, but for a hotplate.
    pub fn heat(&self, pos: Point) -> (heat: i64)
        ensures
            heat == self@.heat_at(pos),
    {
        match self {
            Entity::Hotplate(h) => h.heat(pos),
            _ => 0,
        }
    }

    /// The cook levels of the least and of the most cooked part; zero for
    /// what does not cook.
    pub fn cooked(&self) -> (range: (i64, i64))
        ensures
            range == self@.cooked(),
    {
        match self {
            Entity::Cookable(c) => c.cooked(),
            Entity::Onion(o) => o.cooked(),
            _ => (0, 0),
        }
    }

    /// Whether the entity is gone and should leave the scene.
    pub fn expired(&self) -> (gone: bool)
        ensures
            gone == self@.expired(),
    {
        match self {
            Entity::Smoke(s) => s.expired(),
            _ => false,
        }
    }

    /// The entity as a meal that can be delivered: only bread is one.
    pub fn order(&self) -> (meal: Option<&Bread>)
        ensures
            match self {
                Entity::Bread(b) => meal == Some(b),
                _ => meal is None,
            },
    {
        match self {
            Entity::Bread(b) => Some(b),
            _ => None,
        }
    }

    /// Hands `order` to the entity: a customer takes it as
    /// [`Customer::deliver_order`] says, a queue passes it to the first of
    /// its customers who takes it, and everything else declines.
    pub fn deliver_order(&mut self, order: Bread) -> (outcome: Delivery)
        ensures
            final(self)@ == old(self)@.served(order@),
            old(self)@.response(order@) is None ==> final(self)@ == old(self)@,
            outcome == match old(self)@.response(order@) {
                Some(mood) => Delivery::Accepted(mood),
                None => Delivery::Declined(order),
            },
    {
        reveal(EntityView::response);
        reveal(EntityView::served);
        match self {
            Entity::Customer(c) => c.deliver_order(order),
            Entity::Queue(q) => q.deliver_order(order),
            _ => Delivery::Declined(order),
        }
    }
}

} // verus!
