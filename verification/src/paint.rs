//! What the picture of an entity depends on: colours that change with the
//! cook level, the fading of smoke, the mood in a thought bubble, and the
//! place of the knife over the chopping board.
use crate::board::{BoardView, ChoppingBoard};
use crate::colour::{gradient, interpolate_colour, Colour};
use crate::cookable::Cookable;
use crate::fixed::{floor_div, narrow, sat, sat_mul, times, Point, ONE};
use crate::kinds::{Filling, Mood, BURNT};
use crate::onion::OnionLayer;
use crate::path::{along, interpolate_path};
use crate::smoke::Smoke;
use vstd::prelude::*;

verus! {

/// The colour of what is burnt.
pub open spec fn charcoal() -> Colour {
    Colour { r: 309_803, g: 188_235, b: 94_117, a: 1_000_000 }
}

impl Filling {
    /// The colours of a filling of this kind: raw at zero, done at one,
    /// burnt at [`BURNT`].
    pub open spec fn shades(self) -> Seq<(Colour, i64)> {
        match self {
            Filling::Sausage => seq![
                (Colour { r: 937_254, g: 450_980, b: 611_764, a: 1_000_000 }, 0i64),
                (Colour { r: 800_000, g: 403_921, b: 101_960, a: 1_000_000 }, ONE),
                (charcoal(), BURNT),
            ],
            Filling::VeggiePatty => seq![
                (Colour { r: 988_235, g: 850_980, b: 294_117, a: 1_000_000 }, 0i64),
                (Colour { r: 968_627, g: 607_843, b: 105_882, a: 1_000_000 }, ONE),
                (charcoal(), BURNT),
            ],
        }
    }
}

/// The colours of onion: raw at zero, done at one, burnt at [`BURNT`].
pub open spec fn onion_shades() -> Seq<(Colour, i64)> {
    seq![
        (Colour { r: 1_000_000, g: 950_000, b: 900_000, a: 800_000 }, 0i64),
        (Colour { r: 839_215, g: 552_941, b: 149_019, a: 800_000 }, ONE),
        (charcoal(), BURNT),
    ]
}

/// The colour of the thought bubble of a customer in this mood.
pub open spec fn mood_colour(mood: Option<Mood>) -> Colour {
    match mood {
        None => Colour { r: 1_000_000, g: 1_000_000, b: 1_000_000, a: 1_000_000 },
        Some(Mood::Happy) => Colour { r: 300_000, g: 1_000_000, b: 400_000, a: 1_000_000 },
        Some(Mood::Neutral) => Colour { r: 900_000, g: 900_000, b: 100_000, a: 1_000_000 },
        Some(Mood::Sad) => Colour { r: 1_000_000, g: 100_000, b: 100_000, a: 1_000_000 },
        Some(Mood::Sick) => Colour { r: 1_000_000, g: 100_000, b: 100_000, a: 1_000_000 },
    }
}

/// How much of a puff of smoke is left to see at `age`: half at first, and
/// nothing from an age of five seconds on.
pub open spec fn smoke_opacity(age: i64) -> int {
    let rest = ONE - age as int / 5;
    times(
        500_000,
        if rest < 0 {
            0
        } else {
            sat(rest)
        },
    )
}

/// The path of the knife over a board whose middle is `centre`, by how much
/// of the chopping is done.
pub open spec fn knife_path(centre: Point) -> Seq<(Point, i64)> {
    seq![
        (centre, 0i64),
        (centre.shifted(Point { x: -30_000_000i64, y: 30_000_000 }), 100_000i64),
        (centre.shifted(Point { x: 30_000_000, y: 30_000_000 }), 200_000i64),
        (centre.shifted(Point { x: -30_000_000i64, y: 35_000_000 }), 350_000i64),
        (centre.shifted(Point { x: 30_000_000, y: 35_000_000 }), 450_000i64),
        (centre.shifted(Point { x: -30_000_000i64, y: 40_000_000 }), 600_000i64),
        (centre.shifted(Point { x: 30_000_000, y: 40_000_000 }), 700_000i64),
        (centre.shifted(Point { x: -30_000_000i64, y: 45_000_000 }), 850_000i64),
        (centre.shifted(Point { x: 30_000_000, y: 45_000_000 }), 950_000i64),
        (centre, ONE),
    ]
}

impl Cookable {
    /// The colour of the side that shows.
    pub fn colour(&self) -> (c: Colour)
        ensures
            c == gradient(self.kind.shades(), self.top_cooked as int),
    {
        let burnt = Colour { r: 309_803, g: 188_235, b: 94_117, a: 1_000_000 };
        let stops: [(Colour, i64); 3] = match self.kind {
            Filling::Sausage => [
                (Colour { r: 937_254, g: 450_980, b: 611_764, a: 1_000_000 }, 0),
                (Colour { r: 800_000, g: 403_921, b: 101_960, a: 1_000_000 }, ONE),
                (burnt, BURNT),
            ],
            Filling::VeggiePatty => [
                (Colour { r: 988_235, g: 850_980, b: 294_117, a: 1_000_000 }, 0),
                (Colour { r: 968_627, g: 607_843, b: 105_882, a: 1_000_000 }, ONE),
                (burnt, BURNT),
            ],
        };
        assert(stops@ =~= self.kind.shades());
        interpolate_colour(stops.as_slice(), self.top_cooked)
    }
}

impl OnionLayer {
    /// The colour of the layer.
    pub fn colour(&self) -> (c: Colour)
        ensures
            c == gradient(onion_shades(), self.cooked as int),
    {
        let stops: [(Colour, i64); 3] = [
            (Colour { r: 1_000_000, g: 950_000, b: 900_000, a: 800_000 }, 0),
            (Colour { r: 839_215, g: 552_941, b: 149_019, a: 800_000 }, ONE),
            (Colour { r: 309_803, g: 188_235, b: 94_117, a: 1_000_000 }, BURNT),
        ];
        assert(stops@ =~= onion_shades());
        interpolate_colour(stops.as_slice(), self.cooked)
    }
}

impl Smoke {
    /// The colour of the puff: its shade of grey, fading with age.
    pub fn paint(&self) -> (c: Colour)
        ensures
            c == (Colour {
                r: self.colour,
                g: self.colour,
                b: self.colour,
                a: smoke_opacity(self.age) as i64,
            }),
    {
        let rest: i128 = ONE as i128 - floor_div(self.age as i128, 5);
        let part: i64 = if rest < 0 {
            0
        } else {
            narrow(rest)
        };
        Colour { r: self.colour, g: self.colour, b: self.colour, a: sat_mul(500_000, part) }
    }
}

impl Mood {
    /// The colour of the thought bubble of a customer in this mood; white
    /// for one who is still waiting.
    pub fn colour(mood: Option<Mood>) -> (c: Colour)
        ensures
            c == mood_colour(mood),
    {
        match mood {
            None => Colour { r: 1_000_000, g: 1_000_000, b: 1_000_000, a: 1_000_000 },
            Some(Mood::Happy) => Colour { r: 300_000, g: 1_000_000, b: 400_000, a: 1_000_000 },
            Some(Mood::Neutral) => Colour { r: 900_000, g: 900_000, b: 100_000, a: 1_000_000 },
            Some(Mood::Sad) => Colour { r: 1_000_000, g: 100_000, b: 100_000, a: 1_000_000 },
            Some(Mood::Sick) => Colour { r: 1_000_000, g: 100_000, b: 100_000, a: 1_000_000 },
        }
    }
}

impl BoardView {
    /// Where the knife is: it goes to and fro over the board while the
    /// chopping goes on, and rests in the middle before and after.
    pub open spec fn knife_place(self) -> Point {
        along(knife_path(self.extent().middle()), self.progress as int)
    }
}

impl ChoppingBoard {
    /// Where the knife is.
    pub fn knife(&self) -> (p: Point)
        ensures
            p == self@.knife_place(),
    {
        let centre = self.bounds().centre();
        let stops: [(Point, i64); 10] = [
            (centre, 0),
            (centre.shift(Point { x: -30_000_000, y: 30_000_000 }), 100_000),
            (centre.shift(Point { x: 30_000_000, y: 30_000_000 }), 200_000),
            (centre.shift(Point { x: -30_000_000, y: 35_000_000 }), 350_000),
            (centre.shift(Point { x: 30_000_000, y: 35_000_000 }), 450_000),
            (centre.shift(Point { x: -30_000_000, y: 40_000_000 }), 600_000),
            (centre.shift(Point { x: 30_000_000, y: 40_000_000 }), 700_000),
            (centre.shift(Point { x: -30_000_000, y: 45_000_000 }), 850_000),
            (centre.shift(Point { x: 30_000_000, y: 45_000_000 }), 950_000),
            (centre, ONE),
        ];
        assert(stops@ =~= knife_path(centre));
        interpolate_path(stops.as_slice(), self.progress)
    }
}

} // verus!
