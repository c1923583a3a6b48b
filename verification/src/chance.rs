//! Random draws.
//!
//! Nothing is known of a draw but its range. What the simulation does with a
//! draw is decided in functions that take the draw as an argument.
use crate::fixed::ONE;
use rand::distributions::Bernoulli;
use rand::Rng;
use vstd::prelude::*;

verus! {

/// Calls `gen_range` of the `rand` crate on its thread-local generator. The
/// contract claims what its documentation states: the result lies in the
/// half-open range from `low` to `high`. It panics where the range is empty.
#[verifier::external_body]
pub(crate) fn random_between(low: u32, high: u32) -> (r: u32)
    requires
        low < high,
    ensures
        low <= r < high,
{
    rand::thread_rng().gen_range(low, high)
}

/// Samples `Bernoulli::from_ratio` of the `rand` crate on its thread-local
/// generator: `true` with a chance of `numerator` in `denominator`. Nothing
/// is claimed of the result. The constructor fails where the ratio exceeds
/// one or the denominator is zero.
#[verifier::external_body]
pub(crate) fn random_chance(numerator: u32, denominator: u32) -> (r: bool)
    requires
        numerator <= denominator,
        denominator > 0,
{
    rand::thread_rng().sample(Bernoulli::from_ratio(numerator, denominator).unwrap())
}

/// A draw from zero up to, and not including, one.
pub fn unit_draw() -> (r: i64)
    ensures
        0 <= r < ONE,
{
    let r: u32 = random_between(0, 1_000_000);
    r as i64
}

} // verus!
