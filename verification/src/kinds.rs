//! What a topping is, and how a customer feels about a meal.
use crate::colour::Colour;
use vstd::prelude::*;

verus! {

/// A cook level below this is unsafe to eat in a sausage.
pub const UNDERCOOKED: i64 = 700_000;

/// A cook level above this is burnt.
pub const BURNT: i64 = 1_400_000;

/// The kind of thing that lies on a piece of bread.
#[derive(PartialEq, Eq, Clone, Copy, Structural, Debug)]
pub enum Topping {
    Filling(Filling),
    Onion,
    Condiment(Condiment),
}

#[derive(PartialEq, Eq, Clone, Copy, Structural, Debug)]
pub enum Filling {
    Sausage,
    VeggiePatty,
}

#[derive(PartialEq, Eq, Clone, Copy, Structural, Debug)]
pub enum Condiment {
    Sauce,
    Mustard,
}

/// How a customer feels about what was delivered.
#[derive(PartialEq, Eq, Clone, Copy, Structural, Debug)]
pub enum Mood {
    Happy,
    Neutral,
    Sad,
    Sick,
}

impl Condiment {
    /// The colour of the condiment, in the bottle and on the bread.
    pub open spec fn tint(self) -> Colour {
        match self {
            Condiment::Sauce => Colour { r: 950_000, g: 100_000, b: 0, a: 1_000_000 },
            Condiment::Mustard => Colour { r: 900_000, g: 850_000, b: 0, a: 1_000_000 },
        }
    }

    pub fn colour(&self) -> (c: Colour)
        ensures
            c == self.tint(),
    {
        match self {
            Condiment::Sauce => Colour { r: 950_000, g: 100_000, b: 0, a: 1_000_000 },
            Condiment::Mustard => Colour { r: 900_000, g: 850_000, b: 0, a: 1_000_000 },
        }
    }
}

impl Topping {
    /// Whether a delivered topping can stand for an ordered one: any filling
    /// for a filling, onion for onion, a condiment for the same condiment.
    pub open spec fn answers(self, wanted: Topping) -> bool {
        match (wanted, self) {
            (Topping::Filling(_), Topping::Filling(_)) => true,
            (Topping::Onion, Topping::Onion) => true,
            (Topping::Condiment(c1), Topping::Condiment(c2)) => c1 == c2,
            _ => false,
        }
    }

    /// Whether this delivered topping can stand for the ordered one.
    pub fn matches_category(&self, wanted: &Topping) -> (b: bool)
        ensures
            b == self.answers(*wanted),
    {
        match (*wanted, *self) {
            (Topping::Filling(_), Topping::Filling(_)) => true,
            (Topping::Onion, Topping::Onion) => true,
            (Topping::Condiment(c1), Topping::Condiment(c2)) => c1 == c2,
            _ => false,
        }
    }
}

/// A topping as a customer sees it: its kind and how far its least and its
/// most cooked parts are done.
#[derive(PartialEq, Eq, Clone, Copy, Structural, Debug)]
pub struct Portion {
    pub kind: Topping,
    pub rare: i64,
    pub done: i64,
}

} // verus!
