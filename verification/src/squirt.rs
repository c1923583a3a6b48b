//! Condiments: the bottle, and the squirt that it leaves on the bread.
use crate::chance::{random_between, unit_draw};
use crate::fixed::{plus, sat_add, sat_mul, times, Point, ONE};
use crate::geometry::Rectangle;
use crate::ingredient::{has_condiment, Ingredient};
use crate::kinds::{Condiment, Topping};
use vstd::prelude::*;

verus! {

/// Half the width of a piece of bread: the measure of a squirt.
pub const SQUIRT_SCALE: i64 = 26_500_000;

/// How far from the middle of the bread a squirt lies, and the radius of its
/// first blob, as parts of [`SQUIRT_SCALE`].
pub const SQUIRT_SHIFT: i64 = 200_000;

/// How far the blobs of a squirt scatter, as a part of [`SQUIRT_SCALE`].
pub const SQUIRT_SPREAD: i64 = 400_000;

pub const BOTTLE_WIDTH: i64 = 20_000_000;

pub const BOTTLE_HEIGHT: i64 = 80_000_000;

/// A round blob of condiment.
#[derive(PartialEq, Eq, Clone, Copy, Structural, Debug)]
pub struct Blob {
    /// Where the middle of the blob lies, from the squirt.
    pub offset: Point,
    pub radius: i64,
}

/// The draws that place one blob.
#[derive(PartialEq, Eq, Clone, Copy, Structural, Debug)]
pub struct BlobRoll {
    pub across: i64,
    pub down: i64,
    pub size: i64,
}

/// The draws that shape a squirt: how many blobs it has, and where the blobs
/// after the first one lie.
#[derive(PartialEq, Eq, Clone, Copy, Debug)]
pub struct SquirtRoll {
    /// Five or more for five blobs, less for four.
    pub count: u32,
    pub blobs: [BlobRoll; 4],
}

/// Condiment on the bread: four or five blobs.
#[derive(PartialEq, Eq, Clone, Copy, Debug)]
pub struct Squirt {
    pub pos: Point,
    /// The blobs; the first `count` of them are there.
    pub blobs: [Blob; 5],
    pub count: usize,
    /// The box around the blobs that are there.
    pub bounds: Rectangle,
    pub condiment: Condiment,
}

/// A bottle of condiment. It is never used up.
#[derive(PartialEq, Eq, Clone, Copy, Structural, Debug)]
pub struct Bottle {
    pub pos: Point,
    pub condiment: Condiment,
}

impl Condiment {
    /// Where on the bread this condiment goes, as a part of
    /// [`SQUIRT_SCALE`]: sauce up and to the left, mustard down and to the
    /// right.
    pub open spec fn lean(self) -> int {
        match self {
            Condiment::Sauce => -(SQUIRT_SHIFT as int),
            Condiment::Mustard => SQUIRT_SHIFT as int,
        }
    }
}

impl Blob {
    /// The box around the blob of a squirt at `pos`.
    pub open spec fn placed(self, pos: Point) -> Rectangle {
        let d = plus(self.radius as int, self.radius as int) as i64;
        Rectangle::around(pos.shifted(self.offset), Point { x: d, y: d })
    }

    /// The first blob of a squirt.
    pub open spec fn first(condiment: Condiment) -> Blob {
        Blob {
            offset: Point {
                x: times(condiment.lean(), SQUIRT_SCALE as int) as i64,
                y: times(condiment.lean(), SQUIRT_SCALE as int) as i64,
            },
            radius: times(SQUIRT_SHIFT as int, SQUIRT_SCALE as int) as i64,
        }
    }

    /// One coordinate of a later blob, before scaling.
    pub open spec fn scatter(condiment: Condiment, draw: i64) -> int {
        plus(
            plus(condiment.lean(), -(SQUIRT_SHIFT as int)),
            times(SQUIRT_SPREAD as int, draw as int),
        )
    }

    /// A later blob of a squirt, as the draws place it.
    pub open spec fn drawn(condiment: Condiment, roll: BlobRoll) -> Blob {
        Blob {
            offset: Point {
                x: times(Blob::scatter(condiment, roll.across), SQUIRT_SCALE as int) as i64,
                y: times(Blob::scatter(condiment, roll.down), SQUIRT_SCALE as int) as i64,
            },
            radius: times(
                plus(SQUIRT_SHIFT as int, times(SQUIRT_SHIFT as int, roll.size as int)),
                SQUIRT_SCALE as int,
            ) as i64,
        }
    }

    /// The box around the blob of a squirt at `pos`.
    pub fn bounds(&self, pos: Point) -> (r: Rectangle)
        ensures
            r == self.placed(pos),
    {
        let d = sat_add(self.radius, self.radius);
        Rectangle::centered(pos.shift(self.offset), Point { x: d, y: d })
    }

    fn make_first(condiment: Condiment) -> (b: Blob)
        ensures
            b == Blob::first(condiment),
    {
        let lean: i64 = match condiment {
            Condiment::Sauce => -SQUIRT_SHIFT,
            Condiment::Mustard => SQUIRT_SHIFT,
        };
        Blob {
            offset: Point { x: sat_mul(lean, SQUIRT_SCALE), y: sat_mul(lean, SQUIRT_SCALE) },
            radius: sat_mul(SQUIRT_SHIFT, SQUIRT_SCALE),
        }
    }

    fn make_drawn(condiment: Condiment, roll: &BlobRoll) -> (b: Blob)
        ensures
            b == Blob::drawn(condiment, *roll),
    {
        let lean: i64 = match condiment {
            Condiment::Sauce => -SQUIRT_SHIFT,
            Condiment::Mustard => SQUIRT_SHIFT,
        };
        let base = sat_add(lean, -SQUIRT_SHIFT);
        Blob {
            offset: Point {
                x: sat_mul(sat_add(base, sat_mul(SQUIRT_SPREAD, roll.across)), SQUIRT_SCALE),
                y: sat_mul(sat_add(base, sat_mul(SQUIRT_SPREAD, roll.down)), SQUIRT_SCALE),
            },
            radius: sat_mul(
                sat_add(SQUIRT_SHIFT, sat_mul(SQUIRT_SHIFT, roll.size)),
                SQUIRT_SCALE,
            ),
        }
    }
}

impl BlobRoll {
    pub open spec fn in_range(self) -> bool {
        &&& 0 <= self.across < ONE
        &&& 0 <= self.down < ONE
        &&& 0 <= self.size < ONE
    }
}

impl SquirtRoll {
    /// The count is four or five, and each draw lies from zero up to, and not
    /// including, one.
    pub open spec fn in_range(self) -> bool {
        &&& 4 <= self.count < 6
        &&& forall|i: int| 0 <= i < 4 ==> (#[trigger] self.blobs[i]).in_range()
    }

    /// How many blobs the squirt gets.
    pub open spec fn blobs_wanted(self) -> int {
        if self.count >= 5 {
            5
        } else {
            4
        }
    }
}

/// The box around the first `k` blobs of a squirt at `pos`, for `k` of one or
/// more.
pub open spec fn blob_hull(pos: Point, blobs: Seq<Blob>, k: int) -> Rectangle
    decreases k,
{
    if k <= 1 {
        blobs[0].placed(pos)
    } else {
        blob_hull(pos, blobs, k - 1).hull(blobs[k - 1].placed(pos))
    }
}

/// The blobs of a squirt as the draws shape it.
pub open spec fn blobs_drawn(condiment: Condiment, roll: SquirtRoll) -> Seq<Blob> {
    Seq::new(
        5,
        |i: int|
            if i == 0 {
                Blob::first(condiment)
            } else if i < roll.blobs_wanted() {
                Blob::drawn(condiment, roll.blobs[i - 1])
            } else {
                Blob { offset: Point { x: 0, y: 0 }, radius: 0 }
            },
    )
}

impl Squirt {
    /// The squirt that the draws shape.
    pub open spec fn drawn(condiment: Condiment, pos: Point, roll: SquirtRoll) -> Squirt {
        Squirt {
            pos,
            blobs: [
                blobs_drawn(condiment, roll)[0],
                blobs_drawn(condiment, roll)[1],
                blobs_drawn(condiment, roll)[2],
                blobs_drawn(condiment, roll)[3],
                blobs_drawn(condiment, roll)[4],
            ],
            count: roll.blobs_wanted() as usize,
            bounds: blob_hull(pos, blobs_drawn(condiment, roll), roll.blobs_wanted()),
            condiment,
        }
    }

    /// The squirt moved as a pointer drag from `from` to `to` moves it.
    pub open spec fn dragged(self, from: Point, to: Point) -> Squirt {
        Squirt {
            pos: self.pos.dragged(from, to),
            bounds: self.bounds.moved(to.step_from(from)),
            ..self
        }
    }

    /// The squirt of `condiment` at `pos` that the draws shape.
    pub fn with_blobs(condiment: Condiment, pos: Point, roll: &SquirtRoll) -> (s: Squirt)
        ensures
            s == Squirt::drawn(condiment, pos, *roll),
    {
        let count: usize = if roll.count >= 5 { 5 } else { 4 };
        let none = Blob { offset: Point { x: 0, y: 0 }, radius: 0 };
        let first = Blob::make_first(condiment);
        let mut blobs: [Blob; 5] = [first, none, none, none, none];
        let mut bounds = first.bounds(pos);
        let ghost want = blobs_drawn(condiment, *roll);
        let mut i: usize = 1;
        while i < count
            invariant
                1 <= i <= count,
                count == roll.blobs_wanted(),
                want == blobs_drawn(condiment, *roll),
                forall|k: int| 0 <= k < i ==> blobs@[k] == want[k],
                forall|k: int| i <= k < 5 ==> blobs@[k] == none,
                bounds == blob_hull(pos, want, i as int),
            decreases count - i,
        {
            let blob = Blob::make_drawn(condiment, &roll.blobs[i - 1]);
            blobs[i] = blob;
            bounds = bounds.union(&blob.bounds(pos));
            i += 1;
        }
        let s = Squirt { pos, blobs, count, bounds, condiment };
        assert(s.blobs@ =~= Squirt::drawn(condiment, pos, *roll).blobs@);
        assert(s.blobs =~= Squirt::drawn(condiment, pos, *roll).blobs);
        s
    }

    /// A fresh squirt of `condiment` at `pos`, four or five blobs scattered at
    /// random.
    pub fn new(condiment: Condiment, pos: Point) -> (s: Squirt)
        ensures
            exists|roll: SquirtRoll|
                roll.in_range() && s == #[trigger] Squirt::drawn(condiment, pos, roll),
    {
        let roll = SquirtRoll::draw();
        Squirt::with_blobs(condiment, pos, &roll)
    }

    pub fn bounds(&self) -> (r: Rectangle)
        ensures
            r == self.bounds,
    {
        self.bounds
    }

    /// Whether the pointer at `pos` picks the squirt.
    pub fn select(&self, pos: Point) -> (hit: bool)
        ensures
            hit == self.bounds.holds(pos),
    {
        self.bounds.intersect_point(pos)
    }

    /// Moves the squirt as a pointer drag from `from` to `to` does.
    pub fn drag(&mut self, from: Point, to: Point)
        ensures
            *final(self) == old(self).dragged(from, to),
    {
        let by = to.step(from);
        self.pos = self.pos.shift(by);
        self.bounds = self.bounds.shift(by);
    }

    pub fn set_pos(&mut self, pos: Point)
        ensures
            *final(self) == old(self).dragged(old(self).pos, pos),
    {
        let from = self.pos;
        self.drag(from, pos);
    }

    pub fn topping(&self) -> (t: Option<Topping>)
        ensures
            t == Some(Topping::Condiment(self.condiment)),
    {
        Some(Topping::Condiment(self.condiment))
    }

    /// Offers the squirt to a piece of bread at `pos` that carries `others`.
    /// It is taken, and moved onto the bread, unless the bread carries this
    /// condiment already.
    pub fn add_to(&mut self, pos: Point, others: &Vec<Ingredient>) -> (taken: bool)
        ensures
            taken == !has_condiment(others@, old(self).condiment),
            taken ==> *final(self) == old(self).dragged(old(self).pos, pos),
            !taken ==> *final(self) == *old(self),
    {
        if crate::ingredient::find_condiment(others, self.condiment) {
            false
        } else {
            self.set_pos(pos);
            true
        }
    }
}

impl SquirtRoll {
    /// Draws the shape of a squirt.
    pub fn draw() -> (roll: SquirtRoll)
        ensures
            roll.in_range(),
    {
        let count = random_between(4, 6);
        let b0 = BlobRoll { across: unit_draw(), down: unit_draw(), size: unit_draw() };
        let b1 = BlobRoll { across: unit_draw(), down: unit_draw(), size: unit_draw() };
        let b2 = BlobRoll { across: unit_draw(), down: unit_draw(), size: unit_draw() };
        let b3 = BlobRoll { across: unit_draw(), down: unit_draw(), size: unit_draw() };
        SquirtRoll { count, blobs: [b0, b1, b2, b3] }
    }
}

impl Bottle {
    /// The box around the bottle.
    pub open spec fn extent(self) -> Rectangle {
        Rectangle::around(self.pos, Point { x: BOTTLE_WIDTH, y: BOTTLE_HEIGHT })
    }

    pub fn new(condiment: Condiment, pos: Point) -> (b: Bottle)
        ensures
            b == (Bottle { pos, condiment }),
    {
        Bottle { pos, condiment }
    }

    pub fn bounds(&self) -> (r: Rectangle)
        ensures
            r == self.extent(),
    {
        Rectangle::centered(self.pos, Point { x: BOTTLE_WIDTH, y: BOTTLE_HEIGHT })
    }

    /// Whether the pointer at `pos` picks the bottle.
    pub fn select(&self, pos: Point) -> (hit: bool)
        ensures
            hit == self.extent().holds(pos),
    {
        self.bounds().intersect_point(pos)
    }

    /// Moves the bottle as a pointer drag from `from` to `to` does.
    pub fn drag(&mut self, from: Point, to: Point)
        ensures
            *final(self) == (Bottle { pos: old(self).pos.dragged(from, to), ..*old(self) }),
    {
        self.pos = self.pos.drag(from, to);
    }

    pub fn set_pos(&mut self, pos: Point)
        ensures
            *final(self) == (Bottle { pos, ..*old(self) }),
    {
        self.pos = pos;
    }

    pub fn topping(&self) -> (t: Option<Topping>)
        ensures
            t == Some(Topping::Condiment(self.condiment)),
    {
        Some(Topping::Condiment(self.condiment))
    }

    /// Offers the bottle to a piece of bread at `pos` that carries `others`:
    /// the squirt that `roll` shapes, unless the bread carries this condiment
    /// already. The bottle stays as it is.
    pub fn add_to_with(&self, pos: Point, others: &Vec<Ingredient>, roll: &SquirtRoll) -> (squirt:
        Option<Squirt>)
        ensures
            squirt == if has_condiment(others@, self.condiment) {
                None
            } else {
                Some(Squirt::drawn(self.condiment, pos, *roll))
            },
    {
        if crate::ingredient::find_condiment(others, self.condiment) {
            None
        } else {
            Some(Squirt::with_blobs(self.condiment, pos, roll))
        }
    }

    /// Offers the bottle to a piece of bread at `pos` that carries `others`:
    /// a fresh squirt, unless the bread carries this condiment already.
    pub fn add_to(&self, pos: Point, others: &Vec<Ingredient>) -> (squirt: Option<Squirt>)
        ensures
            has_condiment(others@, self.condiment) ==> squirt is None,
            !has_condiment(others@, self.condiment) ==> exists|roll: SquirtRoll|
                roll.in_range() && squirt == Some(
                    #[trigger] Squirt::drawn(self.condiment, pos, roll),
                ),
    {
        if crate::ingredient::find_condiment(others, self.condiment) {
            None
        } else {
            Some(Squirt::new(self.condiment, pos))
        }
    }
}

} // verus!
