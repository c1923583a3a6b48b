//! Smoke that rises from what cooks.
use crate::fixed::{plus, sat_add, sat_mul, times, Point, ONE};
use crate::geometry::Rectangle;
use vstd::prelude::*;

verus! {

/// The age at which a puff of smoke is gone.
pub const SMOKE_LIFETIME: i64 = 5_000_000;

/// The radius of a fresh puff.
pub const SMOKE_RADIUS: i64 = 10_000_000;

/// How fast the radius grows.
pub const SMOKE_GROWTH: i64 = 5_000_000;

/// How fast a puff drifts to the right.
pub const SMOKE_DRIFT_X: i64 = 20_000_000;

/// How fast a puff drifts downwards.
pub const SMOKE_DRIFT_Y: i64 = 10_000_000;

/// A puff of smoke: it drifts, grows, and is gone after a while.
#[derive(PartialEq, Eq, Clone, Copy, Structural, Debug)]
pub struct Smoke {
    pub pos: Point,
    pub age: i64,
    /// The shade of grey, from black at zero to white at one.
    pub colour: i64,
}

impl Smoke {
    /// The radius at the puff's age.
    pub open spec fn radius(self) -> int {
        plus(SMOKE_RADIUS as int, times(self.age as int, SMOKE_GROWTH as int))
    }

    /// The box around the puff.
    pub open spec fn extent(self) -> Rectangle {
        let d = plus(self.radius(), self.radius()) as i64;
        Rectangle::around(self.pos, Point { x: d, y: d })
    }

    /// The puff after `dt` more seconds.
    pub open spec fn aged(self, dt: i64) -> Smoke {
        Smoke {
            pos: Point {
                x: plus(self.pos.x as int, times(dt as int, SMOKE_DRIFT_X as int)) as i64,
                y: plus(self.pos.y as int, times(dt as int, SMOKE_DRIFT_Y as int)) as i64,
            },
            age: plus(self.age as int, dt as int) as i64,
            colour: self.colour,
        }
    }

    /// A fresh puff at `pos`.
    pub fn new(pos: Point, colour: i64) -> (s: Smoke)
        ensures
            s == (Smoke { pos, age: 0, colour }),
    {
        Smoke { pos, age: 0, colour }
    }

    pub fn bounds(&self) -> (r: Rectangle)
        ensures
            r == self.extent(),
    {
        let radius = sat_add(SMOKE_RADIUS, sat_mul(self.age, SMOKE_GROWTH));
        let d = sat_add(radius, radius);
        Rectangle::centered(self.pos, Point { x: d, y: d })
    }

    /// Lets `dt` seconds pass.
    pub fn update(&mut self, dt: i64)
        ensures
            *final(self) == old(self).aged(dt),
    {
        self.age = sat_add(self.age, dt);
        self.pos = Point {
            x: sat_add(self.pos.x, sat_mul(dt, SMOKE_DRIFT_X)),
            y: sat_add(self.pos.y, sat_mul(dt, SMOKE_DRIFT_Y)),
        };
    }

    /// Whether the puff is gone.
    pub fn expired(&self) -> (gone: bool)
        ensures
            gone == (self.age > SMOKE_LIFETIME),
    {
        self.age > SMOKE_LIFETIME
    }
}

/// The three draws that decide whether something that cooks gives off a puff
/// of smoke, and where.
#[derive(PartialEq, Eq, Clone, Copy, Structural, Debug)]
pub struct SmokeRoll {
    /// Held against the chance of a puff.
    pub chance: i64,
    /// How far across the box the puff starts, from zero to one.
    pub across: i64,
    /// How far down the box the puff starts, from zero to one.
    pub down: i64,
}

/// How likely a puff is in `dt` seconds at heat `heat`: twenty times their
/// product.
pub open spec fn puff_chance(dt: i64, heat: i64) -> int {
    times(times(dt as int, heat as int), 20 * ONE)
}

/// The shade of a puff over something cooked to `cooked`: the less it is
/// done, the lighter.
pub open spec fn puff_shade(cooked: i64) -> int {
    let rest = 3_800_000 - 3 * cooked;
    times(
        400_000,
        if rest < 0 {
            0
        } else if rest > ONE {
            ONE as int
        } else {
            rest
        },
    )
}

/// The puff, if any, that rises inside `bounds` from something cooked to
/// `cooked`.
pub open spec fn puffed(bounds: Rectangle, cooked: i64, dt: i64, heat: i64, roll: SmokeRoll) -> Option<
    Smoke,
> {
    if roll.chance < puff_chance(dt, heat) {
        Some(
            Smoke {
                pos: Point {
                    x: plus(bounds.x as int, times(roll.across as int, bounds.w as int)) as i64,
                    y: plus(bounds.y as int, times(roll.down as int, bounds.h as int)) as i64,
                },
                age: 0,
                colour: puff_shade(cooked) as i64,
            },
        )
    } else {
        None
    }
}

/// Decides on a puff of smoke as the draws say.
pub fn puff(bounds: &Rectangle, cooked: i64, dt: i64, heat: i64, roll: &SmokeRoll) -> (s: Option<
    Smoke,
>)
    ensures
        s == puffed(*bounds, cooked, dt, heat, *roll),
{
    if roll.chance < sat_mul(sat_mul(dt, heat), 20_000_000) {
        let rest: i128 = 3_800_000 - 3 * (cooked as i128);
        let part: i64 = if rest < 0 {
            0
        } else if rest > ONE as i128 {
            ONE
        } else {
            rest as i64
        };
        Some(
            Smoke {
                pos: Point {
                    x: sat_add(bounds.x, sat_mul(roll.across, bounds.w)),
                    y: sat_add(bounds.y, sat_mul(roll.down, bounds.h)),
                },
                age: 0,
                colour: sat_mul(400_000, part),
            },
        )
    } else {
        None
    }
}

/// Draws the three numbers for a puff of smoke.
pub fn draw_smoke_roll() -> (roll: SmokeRoll)
    ensures
        roll.in_range(),
{
    SmokeRoll {
        chance: crate::chance::unit_draw(),
        across: crate::chance::unit_draw(),
        down: crate::chance::unit_draw(),
    }
}

impl SmokeRoll {
    /// Each draw lies from zero up to, and not including, one.
    pub open spec fn in_range(self) -> bool {
        &&& 0 <= self.chance < ONE
        &&& 0 <= self.across < ONE
        &&& 0 <= self.down < ONE
    }
}

} // verus!
