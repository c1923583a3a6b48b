//! The scene: everything there is, from the bottom to the top, and the one
//! entity that the pointer holds.
use crate::board::{stock, BoardView, ChoppingBoard};
use crate::bread::{Bread, BreadView};
use crate::cookable::Cookable;
use crate::customer::{Delivery, OrderRoll, Taste};
use crate::entity::{entity_views, Added, Entity, EntityView, Roll, Selection};
use crate::fixed::{plus, sat_add, Point};
use crate::geometry::Rectangle;
use crate::hotplate::{Hotplate, HotplateView, Table};
use crate::kinds::{Condiment, Filling};
use crate::onion::{OnionPiece, Placement, Shuffle};
use crate::queue::{Queue, QueueRoll, QueueView};
use crate::smoke::SmokeRoll;
use crate::squirt::{BlobRoll, Bottle, SquirtRoll};
use vstd::prelude::*;

verus! {

/// All entities, the lowest first, and the place of the one that the pointer
/// holds. At most one entity is held at a time.
#[derive(Debug)]
pub struct Scene {
    pub entities: Vec<Entity>,
    pub held: Option<usize>,
}

/// A scene as a value.
pub struct SceneView {
    pub entities: Seq<EntityView>,
    pub held: Option<usize>,
}

impl View for Scene {
    type V = SceneView;

    open spec fn view(&self) -> SceneView {
        SceneView { entities: entity_views(self.entities@), held: self.held }
    }
}

/// The heat at `pos` of the first `k` entities together, leaving out the one
/// at `skip`.
pub open spec fn ambient(entities: Seq<EntityView>, skip: int, pos: Point, k: int) -> int
    decreases k,
{
    if k <= 0 {
        0
    } else if k - 1 == skip {
        ambient(entities, skip, pos, k - 1)
    } else {
        plus(ambient(entities, skip, pos, k - 1), entities[k - 1].heat_at(pos))
    }
}

/// The heat under the entity at `i`: what all the others give at its middle.
pub open spec fn heat_under(entities: Seq<EntityView>, i: int) -> int {
    ambient(entities, i, entities[i].extent().middle(), entities.len() as int)
}

/// The draws for the entity at `i`; where the list is too short, draws that
/// let nothing happen by chance.
pub open spec fn roll_at(rolls: Seq<Roll>, i: int) -> Roll {
    if 0 <= i < rolls.len() {
        rolls[i]
    } else {
        Roll::still()
    }
}

impl Roll {
    /// Draws that let nothing happen by chance.
    pub open spec fn still() -> Roll {
        Roll {
            smoke: SmokeRoll { chance: i64::MAX, across: 0, down: 0 },
            queue: QueueRoll {
                arrival: i64::MAX,
                order: OrderRoll {
                    filling: 0,
                    onion: false,
                    condiment: 0,
                    sauce: SquirtRoll {
                        count: 4,
                        blobs: [
                            BlobRoll { across: 0, down: 0, size: 0 },
                            BlobRoll { across: 0, down: 0, size: 0 },
                            BlobRoll { across: 0, down: 0, size: 0 },
                            BlobRoll { across: 0, down: 0, size: 0 },
                        ],
                    },
                    mustard: SquirtRoll {
                        count: 4,
                        blobs: [
                            BlobRoll { across: 0, down: 0, size: 0 },
                            BlobRoll { across: 0, down: 0, size: 0 },
                            BlobRoll { across: 0, down: 0, size: 0 },
                            BlobRoll { across: 0, down: 0, size: 0 },
                        ],
                    },
                },
            },
        }
    }

    /// Draws that let nothing happen by chance.
    pub fn make_still() -> (roll: Roll)
        ensures
            roll == Roll::still(),
    {
        let blob = BlobRoll { across: 0, down: 0, size: 0 };
        let squirt = SquirtRoll { count: 4, blobs: [blob, blob, blob, blob] };
        let roll = Roll {
            smoke: SmokeRoll { chance: i64::MAX, across: 0, down: 0 },
            queue: QueueRoll {
                arrival: i64::MAX,
                order: OrderRoll {
                    filling: 0,
                    onion: false,
                    condiment: 0,
                    sauce: squirt,
                    mustard: squirt,
                },
            },
        };
        assert(roll.queue.order.sauce.blobs =~= Roll::still().queue.order.sauce.blobs);
        assert(roll.queue.order.mustard.blobs =~= Roll::still().queue.order.mustard.blobs);
        roll
    }
}

impl SceneView {
    /// Whether the pointer holds an entity of the scene.
    pub open spec fn holding(self) -> bool {
        self.held matches Some(h) && h < self.entities.len()
    }

    /// The entity at `i` with the heat set that the others give it; the one
    /// that the pointer holds is off the heat and stays so.
    pub open spec fn warm(self, i: int) -> EntityView {
        if self.held == Some(i as usize) {
            self.entities[i]
        } else {
            self.entities[i].warmed(heat_under(self.entities, i) as i64)
        }
    }

    /// The entities after `dt` seconds, each at the heat that the others
    /// give it.
    pub open spec fn ticked(self, dt: i64, taste: Taste, rolls: Seq<Roll>) -> Seq<EntityView> {
        Seq::new(
            self.entities.len(),
            |i: int| self.warm(i).ticked(dt, taste, roll_at(rolls, i)),
        )
    }

    /// What the first `k` entities give off in `dt` seconds, in their order.
    pub open spec fn spawned_upto(self, dt: i64, rolls: Seq<Roll>, k: int) -> Seq<EntityView>
        decreases k,
    {
        if k <= 0 {
            Seq::empty()
        } else {
            self.spawned_upto(dt, rolls, k - 1) + self.warm(k - 1).spawned(
                dt,
                roll_at(rolls, k - 1),
            )
        }
    }
}

/// Those of the first `k` entities that are not gone, in their order.
pub open spec fn alive_upto(entities: Seq<EntityView>, k: int) -> Seq<EntityView>
    decreases k,
{
    if k <= 0 {
        Seq::empty()
    } else if entities[k - 1].expired() {
        alive_upto(entities, k - 1)
    } else {
        alive_upto(entities, k - 1).push(entities[k - 1])
    }
}

/// Where the held entity is found once those that are gone have left: as
/// many places up as entities before it have stayed. Nothing is held any
/// more where the held entity is gone itself.
pub open spec fn held_after(entities: Seq<EntityView>, held: Option<usize>) -> Option<usize> {
    match held {
        Some(h) => if h < entities.len() && !entities[h as int].expired() {
            Some(alive_upto(entities, h as int).len() as usize)
        } else {
            None
        },
        None => None,
    }
}

impl SceneView {
    /// The scene after one tick of `dt` seconds: every entity is warmed and
    /// moves on, those that are gone leave, and what was given off in this
    /// tick comes on top.
    pub open spec fn stepped(self, dt: i64, taste: Taste, rolls: Seq<Roll>) -> SceneView {
        let after = self.ticked(dt, taste, rolls);
        SceneView {
            entities: alive_upto(after, after.len() as int) + self.spawned_upto(
                dt,
                rolls,
                self.entities.len() as int,
            ),
            held: held_after(after, self.held),
        }
    }
}

/// The kitchen at the start: what [`Scene::new`] builds, from the bottom up.
pub open spec fn kitchen(
    columns: u32,
    rows: u32,
    envelope_x: Seq<i64>,
    envelope_y: Seq<i64>,
    noise: Seq<i64>,
    batch: [[[OnionPiece; 3]; 4]; 4],
) -> Seq<EntityView> {
    seq![
        EntityView::Table(
            Table {
                bounds: Rectangle {
                    x: -40_000_000i64,
                    y: 200_000_000,
                    w: 220_000_000,
                    h: 440_000_000,
                },
            },
        ),
        EntityView::ChoppingBoard(
            BoardView {
                pos: Point { x: 120_000_000, y: 400_000_000 },
                progress: 0,
                onions: stock(Point { x: 120_000_000, y: 400_000_000 }, batch),
            },
        ),
        EntityView::Hotplate(
            HotplateView {
                bounds: Rectangle { x: 200_000_000, y: 200_000_000, w: 420_000_000, h: 200_000_000 },
                columns,
                rows,
                envelope_x,
                envelope_y,
                noise,
            },
        ),
        EntityView::Bread(
            BreadView { pos: Point { x: 30_000_000, y: 400_000_000 }, toppings: Seq::empty() },
        ),
        EntityView::Cookable(
            Cookable {
                pos: Point { x: 120_000_000, y: 270_000_000 },
                heat: 0,
                top_cooked: 0,
                bottom_cooked: 0,
                flipped: false,
                kind: Filling::Sausage,
            },
        ),
        EntityView::Cookable(
            Cookable {
                pos: Point { x: 33_000_000, y: 282_500_000 },
                heat: 0,
                top_cooked: 0,
                bottom_cooked: 0,
                flipped: false,
                kind: Filling::VeggiePatty,
            },
        ),
        EntityView::Bottle(
            Bottle { pos: Point { x: 15_000_000, y: 180_000_000 }, condiment: Condiment::Sauce },
        ),
        EntityView::Bottle(
            Bottle { pos: Point { x: 45_000_000, y: 180_000_000 }, condiment: Condiment::Mustard },
        ),
        EntityView::Queue(
            QueueView {
                head: Point { x: 180_000_000, y: 50_000_000 },
                entry: Point { x: 720_000_000, y: 50_000_000 },
                max_len: 4,
                customers: Seq::empty(),
            },
        ),
    ]
}

impl Scene {
    /// The kitchen at the start: a table, the chopping board, a hotplate
    /// with the heat field that the tables give, bread, a sausage and a
    /// patty, the two bottles, and a queue for four customers. Nothing is
    /// held.
    pub fn new(
        columns: u32,
        rows: u32,
        envelope_x: Vec<i64>,
        envelope_y: Vec<i64>,
        noise: Vec<i64>,
        batch: &[[[OnionPiece; 3]; 4]; 4],
    ) -> (s: Scene)
        ensures
            s@ == (SceneView {
                entities: kitchen(columns, rows, envelope_x@, envelope_y@, noise@, *batch),
                held: None,
            }),
    {
        let mut entities: Vec<Entity> = Vec::new();
        entities.push(
            Entity::Table(
                Table::new(
                    Point { x: -40_000_000, y: 200_000_000 },
                    Point { x: 220_000_000, y: 440_000_000 },
                ),
            ),
        );
        entities.push(
            Entity::ChoppingBoard(
                ChoppingBoard::new(Point { x: 120_000_000, y: 400_000_000 }, batch),
            ),
        );
        entities.push(
            Entity::Hotplate(
                Hotplate::new(
                    Point { x: 200_000_000, y: 200_000_000 },
                    Point { x: 420_000_000, y: 200_000_000 },
                    columns,
                    rows,
                    envelope_x,
                    envelope_y,
                    noise,
                ),
            ),
        );
        entities.push(Entity::Bread(Bread::new(Point { x: 30_000_000, y: 400_000_000 })));
        entities.push(
            Entity::Cookable(
                Cookable::new(Filling::Sausage, Point { x: 120_000_000, y: 270_000_000 }),
            ),
        );
        entities.push(
            Entity::Cookable(
                Cookable::new(Filling::VeggiePatty, Point { x: 33_000_000, y: 282_500_000 }),
            ),
        );
        entities.push(
            Entity::Bottle(Bottle::new(Condiment::Sauce, Point { x: 15_000_000, y: 180_000_000 })),
        );
        entities.push(
            Entity::Bottle(
                Bottle::new(Condiment::Mustard, Point { x: 45_000_000, y: 180_000_000 }),
            ),
        );
        entities.push(
            Entity::Queue(
                Queue::new(
                    Point { x: 180_000_000, y: 50_000_000 },
                    Point { x: 720_000_000, y: 50_000_000 },
                    4,
                ),
            ),
        );
        let s = Scene { entities, held: None };
        assert(s@.entities =~= kitchen(columns, rows, envelope_x@, envelope_y@, noise@, *batch));
        s
    }

    /// A scene with nothing in it.
    pub fn empty() -> (s: Scene)
        ensures
            s@ == (SceneView { entities: Seq::empty(), held: None }),
    {
        let s = Scene { entities: Vec::new(), held: None };
        assert(s@.entities =~= Seq::empty());
        s
    }

    /// Puts `entity` on top of the scene.
    pub fn spawn(&mut self, entity: Entity)
        ensures
            final(self)@ == (SceneView {
                entities: old(self)@.entities.push(entity@),
                held: old(self).held,
            }),
    {
        self.entities.push(entity);
        assert(self@.entities =~= old(self)@.entities.push(entity@));
    }

    /// The heat at `pos` of all entities together, leaving out the one at
    /// `skip`.
    pub fn heat_around(&self, skip: Option<usize>, pos: Point) -> (heat: i64)
        ensures
            heat == ambient(
                self@.entities,
                match skip {
                    Some(i) => i as int,
                    None => -1,
                },
                pos,
                self@.entities.len() as int,
            ),
    {
        let ghost at: int = match skip {
            Some(i) => i as int,
            None => -1,
        };
        let mut heat: i64 = 0;
        let mut k: usize = 0;
        while k < self.entities.len()
            invariant
                k <= self.entities.len(),
                at == match skip {
                    Some(i) => i as int,
                    None => -1,
                },
                heat == ambient(self@.entities, at, pos, k as int),
            decreases self.entities.len() - k,
        {
            let skipped = match skip {
                Some(i) => i == k,
                None => false,
            };
            if !skipped {
                heat = sat_add(heat, self.entities[k].heat(pos));
            }
            k += 1;
        }
        heat
    }

    /// Sets under every entity the heat that the others give it. The entity
    /// that the pointer holds keeps its heat.
    pub fn warm_all(&mut self)
        ensures
            final(self).held == old(self).held,
            final(self)@.entities == Seq::new(
                old(self)@.entities.len(),
                |i: int| old(self)@.warm(i),
            ),
    {
        let mut heats: Vec<i64> = Vec::new();
        let mut i: usize = 0;
        while i < self.entities.len()
            invariant
                i <= self.entities.len(),
                *self == *old(self),
                heats@.len() == i,
                forall|k: int| 0 <= k < i ==> heats@[k] == heat_under(self@.entities, k),
            decreases self.entities.len() - i,
        {
            let middle = self.entities[i].bounds().centre();
            let heat = self.heat_around(Some(i), middle);
            heats.push(heat);
            i += 1;
        }
        let mut i: usize = 0;
        while i < self.entities.len()
            invariant
                i <= self.entities.len(),
                self.held == old(self).held,
                self.entities@.len() == old(self).entities@.len(),
                heats@.len() == self.entities@.len(),
                forall|k: int|
                    0 <= k < heats@.len() ==> heats@[k] == heat_under(old(self)@.entities, k),
                forall|k: int| 0 <= k < i ==> (#[trigger] self.entities@[k])@ == old(self)@.warm(k),
                forall|k: int|
                    i <= k < self.entities@.len() ==> (#[trigger] self.entities@[k])@ == old(self)@.entities[k],
            decreases self.entities.len() - i,
        {
            let is_held = match self.held {
                Some(h) => h == i,
                None => false,
            };
            if !is_held {
                self.entities[i].set_heat(heats[i]);
            }
            i += 1;
        }
        assert(self@.entities =~= Seq::new(
            old(self)@.entities.len(),
            |i: int| old(self)@.warm(i),
        ));
    }

    /// Lets `dt` seconds pass for every entity, as the draws say, and hands
    /// back what they give off.
    pub fn tick_all(&mut self, dt: i64, taste: &Taste, rolls: &Vec<Roll>) -> (spawned: Vec<Entity>)
        ensures
            final(self).held == old(self).held,
            final(self)@.entities == Seq::new(
                old(self)@.entities.len(),
                |i: int| old(self)@.entities[i].ticked(dt, *taste, roll_at(rolls@, i)),
            ),
            entity_views(spawned@) == spawned_by(
                old(self)@.entities,
                dt,
                rolls@,
                old(self)@.entities.len() as int,
            ),
    {
        let mut spawned: Vec<Entity> = Vec::new();
        let mut i: usize = 0;
        while i < self.entities.len()
            invariant
                i <= self.entities.len(),
                self.held == old(self).held,
                self.entities@.len() == old(self).entities@.len(),
                forall|k: int|
                    0 <= k < i ==> (#[trigger] self.entities@[k])@ == old(self)@.entities[k].ticked(dt, *taste, roll_at(rolls@, k)),
                forall|k: int|
                    i <= k < self.entities@.len() ==> (#[trigger] self.entities@[k])@ == old(self)@.entities[k],
                entity_views(spawned@) == spawned_by(old(self)@.entities, dt, rolls@, i as int),
            decreases self.entities.len() - i,
        {
            let roll = if i < rolls.len() {
                rolls[i]
            } else {
                Roll::make_still()
            };
            let ghost before = entity_views(spawned@);
            let mut more = self.entities[i].update_with(dt, taste, &roll);
            let ghost added = entity_views(more@);
            spawned.append(&mut more);
            assert(entity_views(spawned@) =~= before + added);
            i += 1;
        }
        assert(self@.entities =~= Seq::new(
            old(self)@.entities.len(),
            |i: int| old(self)@.entities[i].ticked(dt, *taste, roll_at(rolls@, i)),
        ));
        spawned
    }

    /// Takes out of the scene what is gone. The held entity is followed to
    /// its new place.
    pub fn expire(&mut self)
        ensures
            final(self)@ == (SceneView {
                entities: alive_upto(old(self)@.entities, old(self)@.entities.len() as int),
                held: held_after(old(self)@.entities, old(self).held),
            }),
    {
        let ghost all = self@.entities;
        let held = self.held;
        let mut rest: Vec<Entity> = Vec::new();
        std::mem::swap(&mut self.entities, &mut rest);
        let mut k: usize = 0;
        let total = rest.len();
        let mut now_held: Option<usize> = None;
        while rest.len() > 0
            invariant
                k + rest@.len() == total,
                total == all.len(),
                held == old(self).held,
                entity_views(rest@) =~= all.subrange(k as int, total as int),
                entity_views(self.entities@) == alive_upto(all, k as int),
                now_held == match held {
                    Some(h) => if h < k && !all[h as int].expired() {
                        Some(alive_upto(all, h as int).len() as usize)
                    } else {
                        None
                    },
                    None => None,
                },
            decreases rest.len(),
        {
            let ghost before_rest = entity_views(rest@);
            let ghost before_kept = entity_views(self.entities@);
            let e = rest.remove(0);
            assert(e@ == before_rest[0]);
            assert(e@ == all[k as int]);
            assert(entity_views(rest@) =~= before_rest.subrange(1, before_rest.len() as int));
            if !e.expired() {
                let is_held = match held {
                    Some(h) => h == k,
                    None => false,
                };
                if is_held {
                    now_held = Some(self.entities.len());
                }
                self.entities.push(e);
                assert(entity_views(self.entities@) =~= before_kept.push(e@));
            }
            k += 1;
        }
        self.held = now_held;
    }

    /// One tick of `dt` seconds, as the draws say: every entity is warmed
    /// and moves on, those that are gone leave, and what was given off in
    /// this tick comes on top. The entity at `i` goes by `rolls[i]`.
    pub fn update_with(&mut self, dt: i64, taste: &Taste, rolls: &Vec<Roll>)
        ensures
            final(self)@ == old(self)@.stepped(dt, *taste, rolls@),
    {
        self.warm_all();
        let ghost warmed = self@.entities;
        let mut spawned = self.tick_all(dt, taste, rolls);
        proof {
            assert(self@.entities =~= old(self)@.ticked(dt, *taste, rolls@));
            lemma_spawned_by_warm(old(self)@, warmed, dt, rolls@, warmed.len() as int);
        }
        self.expire();
        let ghost alive = self@.entities;
        let ghost given = entity_views(spawned@);
        self.entities.append(&mut spawned);
        assert(self@.entities =~= alive + given);
    }

    /// One tick of `dt` seconds; what happens by chance is drawn.
    pub fn update(&mut self, dt: i64, taste: &Taste)
        ensures
            exists|rolls: Seq<Roll>|
                rolls.len() == old(self)@.entities.len() && (forall|i: int|
                    0 <= i < rolls.len() ==> (#[trigger] rolls[i]).in_range()) && final(self)@
                    == #[trigger] old(self)@.stepped(dt, *taste, rolls),
    {
        let mut rolls: Vec<Roll> = Vec::new();
        let mut i: usize = 0;
        while i < self.entities.len()
            invariant
                i <= self.entities.len(),
                *self == *old(self),
                rolls@.len() == i,
                forall|k: int| 0 <= k < i ==> (#[trigger] rolls@[k]).in_range(),
            decreases self.entities.len() - i,
        {
            rolls.push(Roll::draw());
            i += 1;
        }
        self.update_with(dt, taste, &rolls);
    }
}

/// `i` is the topmost entity that answers a pick at `pos`.
pub open spec fn top_answer(entities: Seq<EntityView>, pos: Point, i: int) -> bool {
    &&& 0 <= i < entities.len()
    &&& entities[i].answers(pos)
    &&& forall|j: int| i < j < entities.len() ==> !(#[trigger] entities[j]).answers(pos)
}

/// `j` is the topmost entity that touches `candidate` and takes it as a
/// topping.
pub open spec fn top_carrier(others: Seq<EntityView>, candidate: EntityView, j: int) -> bool {
    &&& 0 <= j < others.len()
    &&& others[j].extent().overlaps(candidate.extent())
    &&& others[j].welcomes(candidate)
    &&& forall|k: int|
        j < k < others.len() ==> !((#[trigger] others[k]).extent().overlaps(candidate.extent())
            && others[k].welcomes(candidate))
}

/// `j` is the topmost entity that touches the meal at `extent` and takes it.
pub open spec fn top_diner(others: Seq<EntityView>, meal: BreadView, j: int) -> bool {
    &&& 0 <= j < others.len()
    &&& others[j].extent().overlaps(meal.extent())
    &&& others[j].response(meal) is Some
    &&& forall|k: int|
        j < k < others.len() ==> !((#[trigger] others[k]).extent().overlaps(meal.extent())
            && others[k].response(meal) is Some)
}

impl SceneView {
    /// The scene after a pick at `pos`: the topmost entity that answers is
    /// held from then on, or what it hands out, which comes on top of the
    /// scene. Where nothing answers, nothing is held.
    pub open spec fn picked(self, pos: Point, batch: [[[OnionPiece; 3]; 4]; 4]) -> SceneView {
        if exists|i: int| top_answer(self.entities, pos, i) {
            let i = choose|i: int| top_answer(self.entities, pos, i);
            let after = self.entities.update(i, self.entities[i].picked(pos, batch));
            match self.entities[i].hands_out(pos) {
                Some(new) => SceneView {
                    entities: after.push(new),
                    held: Some(self.entities.len() as usize),
                },
                None => SceneView { entities: after, held: Some(i as usize) },
            }
        } else {
            SceneView { entities: self.entities, held: None }
        }
    }

    /// The scene with the held entity changed to `entity`.
    pub open spec fn with_held(self, entity: EntityView) -> SceneView {
        SceneView { entities: self.entities.update(self.held->Some_0 as int, entity), ..self }
    }

    /// The held entity.
    pub open spec fn in_hand(self) -> EntityView {
        self.entities[self.held->Some_0 as int]
    }

    /// The scene with the held entity brought to the top.
    pub open spec fn raised(self) -> SceneView {
        if self.holding() {
            let h = self.held->Some_0 as int;
            SceneView {
                entities: self.entities.remove(h).push(self.entities[h]),
                held: Some((self.entities.len() - 1) as usize),
            }
        } else {
            SceneView { entities: self.entities, held: None }
        }
    }

    /// The scene after the held entity was let go of.
    ///
    /// A topping goes to the topmost bread that it touches and that takes
    /// it; a bottle stays in the scene and leaves the squirt that `roll`
    /// shapes. Else a meal goes to the topmost customer or queue that it
    /// touches and that takes it. Else the entity stays where it is, at
    /// the heat that the others give at its middle. In each case nothing is
    /// held afterwards.
    pub open spec fn released(self, roll: SquirtRoll) -> SceneView {
        if !self.holding() {
            SceneView { entities: self.entities, held: None }
        } else {
            let h = self.held->Some_0 as int;
            let c = self.entities[h];
            let others = self.entities.remove(h);
            if exists|j: int| top_carrier(others, c, j) {
                let j = choose|j: int| top_carrier(others, c, j);
                let topped = others.update(j, others[j].topped(c, roll));
                SceneView {
                    entities: if c.stays_when_taken() {
                        topped.insert(h, c)
                    } else {
                        topped
                    },
                    held: None,
                }
            } else if c matches EntityView::Bread(meal) && exists|j: int|
                top_diner(others, meal, j) {
                let meal = c->Bread_0;
                let j = choose|j: int| top_diner(others, meal, j);
                SceneView { entities: others.update(j, others[j].served(meal)), held: None }
            } else {
                let heat = ambient(others, -1, c.extent().middle(), others.len() as int);
                SceneView { entities: others.insert(h, c.warmed(heat as i64)), held: None }
            }
        }
    }
}

impl Scene {
    /// The place of the entity that the pointer holds, if it holds one.
    pub fn holding(&self) -> (h: Option<usize>)
        ensures
            h is Some == self@.holding(),
            h is Some ==> h == self.held,
    {
        match self.held {
            Some(h) => if h < self.entities.len() {
                Some(h)
            } else {
                None
            },
            None => None,
        }
    }

    /// Picks at `pos`: the topmost entity that answers is held from then
    /// on, or what it hands out. The place of what is held is handed back.
    pub fn select(&mut self, pos: Point, batch: &[[[OnionPiece; 3]; 4]; 4]) -> (picked: Option<
        usize,
    >)
        ensures
            final(self)@ == old(self)@.picked(pos, *batch),
            picked == final(self).held,
    {
        let mut i: usize = self.entities.len();
        while i > 0
            invariant
                i <= self.entities.len(),
                self.entities@.len() == old(self).entities@.len(),
                self@.entities == old(self)@.entities,
                forall|j: int|
                    i <= j < self.entities@.len() ==> !(#[trigger] old(self)@.entities[j]).answers(
                        pos,
                    ),
            decreases i,
        {
            i -= 1;
            let ghost before = self@.entities;
            match self.entities[i].select(pos, batch) {
                Selection::Nothing => {
                    assert(self@.entities =~= before);
                },
                Selection::This => {
                    proof {
                        lemma_top_answer_unique(before, pos, i as int);
                        assert(self@.entities =~= before.update(
                            i as int,
                            before[i as int].picked(pos, *batch),
                        ));
                    }
                    self.held = Some(i);
                    return Some(i);
                },
                Selection::New(entity) => {
                    proof {
                        lemma_top_answer_unique(before, pos, i as int);
                    }
                    let ghost changed = self@.entities;
                    assert(changed =~= before.update(i as int, before[i as int].picked(pos, *batch)));
                    let n = self.entities.len();
                    self.entities.push(entity);
                    assert(self@.entities =~= changed.push(entity@));
                    self.held = Some(n);
                    return Some(n);
                },
            }
        }
        assert forall|j: int| !top_answer(old(self)@.entities, pos, j) by {
            if top_answer(old(self)@.entities, pos, j) {
                assert(!old(self)@.entities[j].answers(pos));
            }
        }
        self.held = None;
        None
    }

    /// Picks the held entity up: a filling is turned over and leaves the
    /// heat.
    pub fn grab(&mut self)
        ensures
            old(self)@.holding() ==> final(self)@ == old(self)@.with_held(
                old(self)@.in_hand().grabbed(),
            ),
            !old(self)@.holding() ==> final(self)@ == old(self)@,
    {
        match self.holding() {
            Some(h) => {
                let ghost before = self@.entities;
                self.entities[h].grab();
                assert(self@.entities =~= before.update(h as int, before[h as int].grabbed()));
            },
            None => {},
        }
    }

    /// Brings the held entity to the top of the scene.
    pub fn grabbed(&mut self)
        ensures
            final(self)@ == old(self)@.raised(),
    {
        match self.holding() {
            Some(h) => {
                let ghost before = self@.entities;
                let entity = self.entities.remove(h);
                assert(entity_views(self.entities@) =~= before.remove(h as int));
                self.entities.push(entity);
                assert(self@.entities =~= before.remove(h as int).push(before[h as int]));
                self.held = Some(self.entities.len() - 1);
            },
            None => {
                self.held = None;
            },
        }
    }

    /// Moves the held entity as a pointer drag from `from` to `to` does.
    pub fn drag(&mut self, from: Point, to: Point)
        ensures
            old(self)@.holding() ==> final(self)@ == old(self)@.with_held(
                old(self)@.in_hand().dragged(from, to),
            ),
            !old(self)@.holding() ==> final(self)@ == old(self)@,
    {
        match self.holding() {
            Some(h) => {
                let ghost before = self@.entities;
                self.entities[h].drag(from, to);
                assert(self@.entities =~= before.update(h as int, before[h as int].dragged(from, to)));
            },
            None => {},
        }
    }

    /// Lets `dt` seconds pass for the held entity as one that is held: the
    /// chopping board chops.
    pub fn update_selected(&mut self, dt: i64)
        ensures
            old(self)@.holding() ==> final(self)@ == old(self)@.with_held(
                old(self)@.in_hand().held_for(dt),
            ),
            !old(self)@.holding() ==> final(self)@ == old(self)@,
    {
        match self.holding() {
            Some(h) => {
                let ghost before = self@.entities;
                self.entities[h].update_selected(dt);
                assert(self@.entities =~= before.update(h as int, before[h as int].held_for(dt)));
            },
            None => {},
        }
    }

    /// Puts the held entity down as the draws say: an onion is scrambled
    /// and leaves the heat. The entity is still held afterwards, until
    /// [`Scene::dropped`] has found its place.
    pub fn drop_with(&mut self, picks: &Shuffle, fresh: &[[Placement; 3]; 4])
        ensures
            old(self)@.holding() ==> final(self)@ == old(self)@.with_held(
                old(self)@.in_hand().put_down(*picks, *fresh),
            ),
            !old(self)@.holding() ==> final(self)@ == old(self)@,
    {
        match self.holding() {
            Some(h) => {
                let ghost before = self@.entities;
                self.entities[h].drop_with(picks, fresh);
                assert(self@.entities =~= before.update(
                    h as int,
                    before[h as int].put_down(*picks, *fresh),
                ));
            },
            None => {},
        }
    }

    /// Puts the held entity down: an onion is scrambled at random and
    /// leaves the heat.
    pub fn drop(&mut self, fresh: &[[Placement; 3]; 4])
        ensures
            old(self)@.holding() ==> exists|picks: Shuffle|
                picks.in_range() && final(self)@ == old(self)@.with_held(
                    #[trigger] old(self)@.in_hand().put_down(picks, *fresh),
                ),
            !old(self)@.holding() ==> final(self)@ == old(self)@,
    {
        let picks = Shuffle::draw();
        self.drop_with(&picks, fresh);
    }

    /// Finds the place of the entity that was let go of, with the draws for
    /// a squirt that a bottle may leave.
    pub fn dropped_with(&mut self, roll: &SquirtRoll)
        ensures
            final(self)@ == old(self)@.released(*roll),
    {
        let h = match self.holding() {
            Some(h) => h,
            None => {
                self.held = None;
                return ;
            },
        };
        self.held = None;
        let ghost all = self@.entities;
        let candidate = self.entities.remove(h);
        let ghost c = candidate@;
        let ghost others = self@.entities;
        assert(others =~= all.remove(h as int));
        let reach = candidate.bounds();
        let candidate = match self.offer(candidate, reach, h, roll) {
            Some(back) => back,
            None => {
                return ;
            },
        };
        let candidate = match candidate {
            Entity::Bread(meal) => {
                match self.serve(meal) {
                    Some(back) => Entity::Bread(back),
                    None => {
                        return ;
                    },
                }
            },
            other => other,
        };
        let heat = self.heat_around(None, reach.centre());
        let mut candidate = candidate;
        candidate.set_heat(heat);
        self.entities.insert(h, candidate);
        assert(self@.entities =~= others.insert(h as int, c.warmed(heat)));
    }

    /// Offers `candidate`, which was taken out of the scene at `place`, to
    /// the entities that it touches, the topmost first. Where one takes it,
    /// nothing is handed back; a candidate that stays in the scene when
    /// taken is put back at `place`. Where none takes it, it is handed back
    /// and the scene is as before.
    fn offer(&mut self, candidate: Entity, reach: Rectangle, place: usize, roll: &SquirtRoll) -> (back:
        Option<Entity>)
        requires
            place <= old(self).entities@.len(),
            reach == candidate@.extent(),
        ensures
            final(self).held == old(self).held,
            forall|j: int|
                top_carrier(old(self)@.entities, candidate@, j) ==> back is None && final(self)@.entities == (if candidate@.stays_when_taken() {
                    old(self)@.entities.update(
                        j,
                        old(self)@.entities[j].topped(candidate@, *roll),
                    ).insert(place as int, candidate@)
                } else {
                    old(self)@.entities.update(j, old(self)@.entities[j].topped(candidate@, *roll))
                }),
            (forall|j: int| !top_carrier(old(self)@.entities, candidate@, j)) ==> back == Some(
                candidate,
            ) && final(self)@ == old(self)@,
    {
        let mut carried = candidate;
        let mut j: usize = self.entities.len();
        while j > 0
            invariant
                j <= self.entities.len(),
                place <= self.entities@.len(),
                self.held == old(self).held,
                self.entities@.len() == old(self).entities@.len(),
                self@.entities == old(self)@.entities,
                carried == candidate,
                reach == candidate@.extent(),
                forall|k: int|
                    j <= k < self.entities@.len() ==> !((#[trigger] old(self)@.entities[k]).extent().overlaps(candidate@.extent()) && old(self)@.entities[k].welcomes(candidate@)),
            decreases j,
        {
            j -= 1;
            let ghost before = self@.entities;
            if self.entities[j].bounds().intersect_rect(&reach) {
                match self.entities[j].add_topping_with(carried, roll) {
                    Added::This => {
                        proof {
                            assert(top_carrier(old(self)@.entities, candidate@, j as int));
                            lemma_top_carrier_unique(before, candidate@, j as int);
                            assert(self@.entities =~= before.update(
                                j as int,
                                before[j as int].topped(candidate@, *roll),
                            ));
                        }
                        return None;
                    },
                    Added::New(stays) => {
                        proof {
                            assert(top_carrier(old(self)@.entities, candidate@, j as int));
                            lemma_top_carrier_unique(before, candidate@, j as int);
                        }
                        let ghost changed = self@.entities;
                        assert(changed =~= before.update(
                            j as int,
                            before[j as int].topped(candidate@, *roll),
                        ));
                        self.entities.insert(place, stays);
                        assert(self@.entities =~= changed.insert(place as int, candidate@));
                        return None;
                    },
                    Added::Refused(same) => {
                        assert(self@.entities =~= before);
                        carried = same;
                    },
                }
            }
        }
        assert forall|k: int| !top_carrier(old(self)@.entities, candidate@, k) by {
            if top_carrier(old(self)@.entities, candidate@, k) {
                assert(!(old(self)@.entities[k].extent().overlaps(candidate@.extent()) && old(self)@.entities[k].welcomes(candidate@)));
            }
        }
        Some(carried)
    }

    /// Hands `meal` to the entities that it touches, the topmost first.
    /// Where one takes it, nothing is handed back. Where none takes it, it
    /// is handed back and the scene is as before.
    fn serve(&mut self, meal: Bread) -> (back: Option<Bread>)
        ensures
            final(self).held == old(self).held,
            forall|j: int|
                top_diner(old(self)@.entities, meal@, j) ==> back is None && final(self)@.entities
                    == old(self)@.entities.update(j, old(self)@.entities[j].served(meal@)),
            (forall|j: int| !top_diner(old(self)@.entities, meal@, j)) ==> back == Some(meal)
                && final(self)@ == old(self)@,
    {
        let reach = meal.bounds();
        let mut carried = meal;
        let mut j: usize = self.entities.len();
        while j > 0
            invariant
                j <= self.entities.len(),
                self.held == old(self).held,
                self.entities@.len() == old(self).entities@.len(),
                self@.entities == old(self)@.entities,
                carried == meal,
                reach == meal@.extent(),
                forall|k: int|
                    j <= k < self.entities@.len() ==> !((#[trigger] old(self)@.entities[k]).extent().overlaps(meal@.extent()) && old(self)@.entities[k].response(meal@) is Some),
            decreases j,
        {
            j -= 1;
            let ghost before = self@.entities;
            if self.entities[j].bounds().intersect_rect(&reach) {
                match self.entities[j].deliver_order(carried) {
                    Delivery::Accepted(_) => {
                        proof {
                            assert(top_diner(old(self)@.entities, meal@, j as int));
                            lemma_top_diner_unique(before, meal@, j as int);
                            assert(self@.entities =~= before.update(
                                j as int,
                                before[j as int].served(meal@),
                            ));
                        }
                        return None;
                    },
                    Delivery::Declined(same) => {
                        assert(self@.entities =~= before);
                        carried = same;
                    },
                }
            }
        }
        assert forall|k: int| !top_diner(old(self)@.entities, meal@, k) by {
            if top_diner(old(self)@.entities, meal@, k) {
                assert(!(old(self)@.entities[k].extent().overlaps(meal@.extent()) && old(self)@.entities[k].response(meal@) is Some));
            }
        }
        Some(carried)
    }

    /// Finds the place of the entity that was let go of: on a piece of
    /// bread, with a customer, or where it is, on the heat that is there.
    pub fn dropped(&mut self)
        ensures
            exists|roll: SquirtRoll|
                roll.in_range() && final(self)@ == #[trigger] old(self)@.released(roll),
    {
        let roll = SquirtRoll::draw();
        self.dropped_with(&roll);
    }
}

/// At most one entity is the topmost that answers a pick.
pub proof fn lemma_top_answer_unique(entities: Seq<EntityView>, pos: Point, i: int)
    requires
        top_answer(entities, pos, i),
    ensures
        (choose|k: int| top_answer(entities, pos, k)) == i,
        exists|k: int| top_answer(entities, pos, k),
{
    let c = choose|k: int| top_answer(entities, pos, k);
    if c < i {
        assert(!entities[i].answers(pos));
    }
    if i < c {
        assert(!entities[c].answers(pos));
    }
}

/// At most one entity is the topmost that takes a topping.
pub proof fn lemma_top_carrier_unique(others: Seq<EntityView>, candidate: EntityView, j: int)
    requires
        top_carrier(others, candidate, j),
    ensures
        forall|k: int| top_carrier(others, candidate, k) ==> k == j,
        (choose|k: int| top_carrier(others, candidate, k)) == j,
{
    assert forall|k: int| top_carrier(others, candidate, k) implies k == j by {
        if k < j {
            assert(!(others[j].extent().overlaps(candidate.extent()) && others[j].welcomes(
                candidate,
            )));
        }
        if j < k {
            assert(!(others[k].extent().overlaps(candidate.extent()) && others[k].welcomes(
                candidate,
            )));
        }
    }
}

/// At most one entity is the topmost that takes a meal.
pub proof fn lemma_top_diner_unique(others: Seq<EntityView>, meal: BreadView, j: int)
    requires
        top_diner(others, meal, j),
    ensures
        forall|k: int| top_diner(others, meal, k) ==> k == j,
        (choose|k: int| top_diner(others, meal, k)) == j,
{
    assert forall|k: int| top_diner(others, meal, k) implies k == j by {
        if k < j {
            assert(!(others[j].extent().overlaps(meal.extent()) && others[j].response(meal)
                is Some));
        }
        if j < k {
            assert(!(others[k].extent().overlaps(meal.extent()) && others[k].response(meal)
                is Some));
        }
    }
}

/// What the first `k` entities give off in `dt` seconds, in their order.
pub open spec fn spawned_by(entities: Seq<EntityView>, dt: i64, rolls: Seq<Roll>, k: int) -> Seq<
    EntityView,
>
    decreases k,
{
    if k <= 0 {
        Seq::empty()
    } else {
        spawned_by(entities, dt, rolls, k - 1) + entities[k - 1].spawned(dt, roll_at(rolls, k - 1))
    }
}

/// What the warmed entities give off is what the scene gives off.
pub proof fn lemma_spawned_by_warm(
    scene: SceneView,
    warmed: Seq<EntityView>,
    dt: i64,
    rolls: Seq<Roll>,
    k: int,
)
    requires
        warmed == Seq::new(scene.entities.len(), |i: int| scene.warm(i)),
        0 <= k <= warmed.len(),
    ensures
        spawned_by(warmed, dt, rolls, k) == scene.spawned_upto(dt, rolls, k),
    decreases k,
{
    if k > 0 {
        lemma_spawned_by_warm(scene, warmed, dt, rolls, k - 1);
    }
}

} // verus!
