//! Sausages and patties: fillings that cook on both sides.
use crate::fixed::{plus, sat_add, sat_mul, times, Point, ONE};
use crate::geometry::{greatest, least, Rectangle};
use crate::kinds::{Filling, Portion, Topping};
use crate::smoke::{draw_smoke_roll, puff, puffed, Smoke, SmokeRoll};
use vstd::prelude::*;

verus! {

pub const SAUSAGE_WIDTH: i64 = 13_000_000;

pub const SAUSAGE_HEIGHT: i64 = 65_000_000;

pub const PATTY_WIDTH: i64 = 50_000_000;

pub const PATTY_HEIGHT: i64 = 36_000_000;

/// A filling. It cooks on the side that lies down; picking it up turns it
/// over.
#[derive(PartialEq, Eq, Clone, Copy, Structural, Debug)]
pub struct Cookable {
    pub pos: Point,
    pub heat: i64,
    pub top_cooked: i64,
    pub bottom_cooked: i64,
    pub flipped: bool,
    pub kind: Filling,
}

impl Filling {
    /// The size of a filling of this kind.
    pub open spec fn size(self) -> Point {
        match self {
            Filling::Sausage => Point { x: SAUSAGE_WIDTH, y: SAUSAGE_HEIGHT },
            Filling::VeggiePatty => Point { x: PATTY_WIDTH, y: PATTY_HEIGHT },
        }
    }

    /// How fast this kind cooks: a patty half as fast as a sausage.
    pub open spec fn rate(self) -> int {
        match self {
            Filling::Sausage => ONE as int,
            Filling::VeggiePatty => ONE as int / 2,
        }
    }
}

impl Cookable {
    /// The box around the filling.
    pub open spec fn extent(self) -> Rectangle {
        Rectangle::around(self.pos, self.kind.size())
    }

    /// What `dt` seconds at the present heat add to the lower side.
    pub open spec fn gain(self, dt: i64) -> int {
        times(times(dt as int, self.heat as int), self.kind.rate())
    }

    /// The filling after `dt` seconds at its present heat.
    pub open spec fn cooked_for(self, dt: i64) -> Cookable {
        Cookable { bottom_cooked: plus(self.bottom_cooked as int, self.gain(dt)) as i64, ..self }
    }

    /// The filling turned over and lifted off the heat.
    pub open spec fn turned(self) -> Cookable {
        Cookable {
            top_cooked: self.bottom_cooked,
            bottom_cooked: self.top_cooked,
            flipped: !self.flipped,
            heat: 0,
            ..self
        }
    }

    /// The filling as a customer sees it.
    pub open spec fn as_portion(self) -> Portion {
        Portion {
            kind: Topping::Filling(self.kind),
            rare: least(self.top_cooked as int, self.bottom_cooked as int) as i64,
            done: greatest(self.top_cooked as int, self.bottom_cooked as int) as i64,
        }
    }

    /// A raw filling at `pos`.
    pub fn new(kind: Filling, pos: Point) -> (c: Cookable)
        ensures
            c == (Cookable { pos, heat: 0, top_cooked: 0, bottom_cooked: 0, flipped: false, kind }),
    {
        Cookable::with_cooked(kind, pos, 0)
    }

    /// A filling at `pos`, both sides cooked to `cooked`.
    pub fn with_cooked(kind: Filling, pos: Point, cooked: i64) -> (c: Cookable)
        ensures
            c == (Cookable {
                pos,
                heat: 0,
                top_cooked: cooked,
                bottom_cooked: cooked,
                flipped: false,
                kind,
            }),
    {
        Cookable { pos, heat: 0, top_cooked: cooked, bottom_cooked: cooked, flipped: false, kind }
    }

    pub fn bounds(&self) -> (r: Rectangle)
        ensures
            r == self.extent(),
    {
        match self.kind {
            Filling::Sausage => Rectangle::centered(
                self.pos,
                Point { x: SAUSAGE_WIDTH, y: SAUSAGE_HEIGHT },
            ),
            Filling::VeggiePatty => Rectangle::centered(
                self.pos,
                Point { x: PATTY_WIDTH, y: PATTY_HEIGHT },
            ),
        }
    }

    /// Whether the pointer at `pos` picks the filling.
    pub fn select(&self, pos: Point) -> (hit: bool)
        ensures
            hit == self.extent().holds(pos),
    {
        self.bounds().intersect_point(pos)
    }

    /// Cooks the lower side for `dt` seconds and gives off the puff of smoke
    /// that the draws call for.
    pub fn update_with(&mut self, dt: i64, roll: &SmokeRoll) -> (smoke: Option<Smoke>)
        ensures
            *final(self) == old(self).cooked_for(dt),
            smoke == puffed(
                old(self).extent(),
                final(self).bottom_cooked,
                dt,
                old(self).heat,
                *roll,
            ),
    {
        let rate: i64 = match self.kind {
            Filling::Sausage => ONE,
            Filling::VeggiePatty => 500_000,
        };
        self.bottom_cooked = sat_add(self.bottom_cooked, sat_mul(sat_mul(dt, self.heat), rate));
        let bounds = self.bounds();
        puff(&bounds, self.bottom_cooked, dt, self.heat, roll)
    }

    /// Cooks the lower side for `dt` seconds; now and then a puff of smoke
    /// rises.
    pub fn update(&mut self, dt: i64) -> (smoke: Option<Smoke>)
        ensures
            *final(self) == old(self).cooked_for(dt),
            exists|roll: SmokeRoll|
                roll.in_range() && smoke == #[trigger] puffed(
                    old(self).extent(),
                    final(self).bottom_cooked,
                    dt,
                    old(self).heat,
                    roll,
                ),
    {
        let roll = draw_smoke_roll();
        self.update_with(dt, &roll)
    }

    /// Moves the filling as a pointer drag from `from` to `to` does.
    pub fn drag(&mut self, from: Point, to: Point)
        ensures
            *final(self) == (Cookable { pos: old(self).pos.dragged(from, to), ..*old(self) }),
    {
        self.pos = self.pos.drag(from, to);
    }

    pub fn set_pos(&mut self, pos: Point)
        ensures
            *final(self) == (Cookable { pos, ..*old(self) }),
    {
        self.pos = pos;
    }

    /// Picks the filling up: it is turned over and leaves the heat.
    pub fn grab(&mut self)
        ensures
            *final(self) == old(self).turned(),
    {
        let tmp = self.top_cooked;
        self.top_cooked = self.bottom_cooked;
        self.bottom_cooked = tmp;
        self.flipped = !self.flipped;
        self.heat = 0;
    }

    /// The cook levels of the less and of the more cooked side.
    pub fn cooked(&self) -> (range: (i64, i64))
        ensures
            range.0 == self.as_portion().rare,
            range.1 == self.as_portion().done,
            range.0 <= range.1,
    {
        if self.top_cooked <= self.bottom_cooked {
            (self.top_cooked, self.bottom_cooked)
        } else {
            (self.bottom_cooked, self.top_cooked)
        }
    }

    pub fn set_heat(&mut self, heat: i64)
        ensures
            *final(self) == (Cookable { heat, ..*old(self) }),
    {
        self.heat = heat;
    }

    pub fn topping(&self) -> (t: Option<Topping>)
        ensures
            t == Some(Topping::Filling(self.kind)),
    {
        Some(Topping::Filling(self.kind))
    }
}

/// With heat and time that are not negative, cooking never lowers the cook
/// level of the side that lies down, and leaves the other side as it is.
pub proof fn lemma_cooking_is_monotone(c: Cookable, dt: i64)
    requires
        c.heat >= 0,
        dt >= 0,
    ensures
        c.cooked_for(dt).bottom_cooked >= c.bottom_cooked,
        c.cooked_for(dt).top_cooked == c.top_cooked,
        c.cooked_for(dt).heat == c.heat,
{
    let warmth = times(dt as int, c.heat as int);
    assert(dt * c.heat >= 0) by (nonlinear_arith)
        requires
            dt >= 0,
            c.heat >= 0,
    ;
    assert(warmth >= 0);
    assert(warmth * c.kind.rate() >= 0) by (nonlinear_arith)
        requires
            warmth >= 0,
            c.kind.rate() >= 0,
    ;
}

/// The filling after the first `k` of the ticks `dts`.
pub open spec fn cooked_through(c: Cookable, dts: Seq<i64>, k: int) -> Cookable
    decreases k,
{
    if k <= 0 {
        c
    } else {
        cooked_through(c, dts, k - 1).cooked_for(dts[k - 1])
    }
}

/// Over any run of ticks at a heat that is not negative, the cook level of
/// the side that lies down never falls from one tick to the next, and the
/// heat stays as it is.
pub proof fn lemma_cooking_never_undone(c: Cookable, dts: Seq<i64>, k: int)
    requires
        c.heat >= 0,
        forall|i: int| 0 <= i < dts.len() ==> dts[i] >= 0,
        0 <= k < dts.len(),
    ensures
        cooked_through(c, dts, k).heat == c.heat,
        cooked_through(c, dts, k + 1).heat == c.heat,
        cooked_through(c, dts, k + 1).bottom_cooked >= cooked_through(c, dts, k).bottom_cooked,
        cooked_through(c, dts, k + 1).bottom_cooked >= c.bottom_cooked,
    decreases k,
{
    if k > 0 {
        lemma_cooking_never_undone(c, dts, k - 1);
    }
    lemma_cooking_is_monotone(cooked_through(c, dts, k), dts[k]);
}

/// Picking a filling up swaps the cook levels of its two sides and takes the
/// heat away; picking it up twice gives each side its first cook level back.
pub proof fn lemma_grab_twice_restores(c: Cookable)
    ensures
        c.turned().top_cooked == c.bottom_cooked,
        c.turned().bottom_cooked == c.top_cooked,
        c.turned().heat == 0,
        c.turned().turned().top_cooked == c.top_cooked,
        c.turned().turned().bottom_cooked == c.bottom_cooked,
        c.turned().turned().flipped == c.flipped,
{
}

} // verus!
