//! Fixed-point scalars and points.
//!
//! A scalar is an `i64` that counts millionths of a unit: a pixel, a second,
//! a cook level. Sums and products are computed exactly and then saturate at
//! the ends of the `i64` range, so every operation is total.
use vstd::arithmetic::div_mod::{
    lemma_div_is_ordered, lemma_div_multiples_vanish, lemma_fundamental_div_mod_converse,
};
use vstd::prelude::*;

verus! {

/// The scalar that stands for the number one.
pub const ONE: i64 = 1_000_000;

/// The nearest value of the `i64` range.
pub open spec fn sat(v: int) -> int {
    if v < i64::MIN {
        i64::MIN as int
    } else if v > i64::MAX {
        i64::MAX as int
    } else {
        v
    }
}

/// The saturating sum.
pub open spec fn plus(a: int, b: int) -> int {
    sat(a + b)
}

/// The saturating difference.
pub open spec fn minus(a: int, b: int) -> int {
    sat(a - b)
}

/// The saturating fixed-point product, rounded down.
pub open spec fn times(a: int, b: int) -> int {
    sat(a * b / (ONE as int))
}

/// Narrows a wide intermediate result, saturating at the ends of the range.
pub fn narrow(v: i128) -> (r: i64)
    ensures
        r == sat(v as int),
{
    if v < i64::MIN as i128 {
        i64::MIN
    } else if v > i64::MAX as i128 {
        i64::MAX
    } else {
        v as i64
    }
}

/// The quotient rounded towards negative infinity.
pub fn floor_div(a: i128, b: i128) -> (q: i128)
    requires
        b > 0,
        a > i128::MIN,
    ensures
        q == a as int / b as int,
{
    if a >= 0 {
        a / b
    } else {
        let n: i128 = -a - 1;
        let k: i128 = n / b;
        proof {
            let q: int = -k - 1;
            let r: int = a - q * b;
            assert(k * b <= n < k * b + b) by (nonlinear_arith)
                requires
                    k == n as int / b as int,
                    b > 0,
                    n >= 0,
            ;
            assert(q * b == -(k * b) - b) by (nonlinear_arith)
                requires
                    q == -k - 1,
            ;
            lemma_fundamental_div_mod_converse(a as int, b as int, q, r);
        }
        -k - 1
    }
}

/// `a + b`, saturating.
pub fn sat_add(a: i64, b: i64) -> (r: i64)
    ensures
        r == plus(a as int, b as int),
{
    narrow(a as i128 + b as i128)
}

/// `a - b`, saturating.
pub fn sat_sub(a: i64, b: i64) -> (r: i64)
    ensures
        r == minus(a as int, b as int),
{
    narrow(a as i128 - b as i128)
}

/// The fixed-point product of `a` and `b`, rounded down and saturating.
pub fn sat_mul(a: i64, b: i64) -> (r: i64)
    ensures
        r == times(a as int, b as int),
{
    let wide: i128 = wide_mul(a, b);
    narrow(floor_div(wide, ONE as i128))
}

/// The exact product of two scalars.
pub fn wide_mul(a: i64, b: i64) -> (r: i128)
    ensures
        r == a * b,
        -0x4000_0000_0000_0000_0000_0000_0000_0000 <= r <= 0x4000_0000_0000_0000_0000_0000_0000_0000,
{
    assert(-0x4000_0000_0000_0000_0000_0000_0000_0000 <= a * b
        <= 0x4000_0000_0000_0000_0000_0000_0000_0000) by (nonlinear_arith)
        requires
            -0x8000_0000_0000_0000 <= a <= 0x7fff_ffff_ffff_ffff,
            -0x8000_0000_0000_0000 <= b <= 0x7fff_ffff_ffff_ffff,
    ;
    a as i128 * b as i128
}

/// Half of `a`, rounded down.
pub fn half(a: i64) -> (r: i64)
    ensures
        r == a as int / 2,
{
    let q: i128 = floor_div(a as i128, 2);
    q as i64
}

/// `v` held between `low` and `high`.
pub open spec fn clamped(v: int, low: int, high: int) -> int {
    if v < low {
        low
    } else if v > high {
        high
    } else {
        v
    }
}

/// Holds `v` between `low` and `high`; `low` wins where the two cross.
pub fn clamp(v: i64, low: i64, high: i64) -> (r: i64)
    ensures
        r == clamped(v as int, low as int, high as int),
{
    if v < low {
        low
    } else if v > high {
        high
    } else {
        v
    }
}

/// `r` is the square root of `v`, rounded down.
pub open spec fn is_root(v: int, r: int) -> bool {
    0 <= r && r * r <= v < (r + 1) * (r + 1)
}

/// The square root of `v`, rounded down.
pub open spec fn root(v: int) -> int {
    choose|r: int| is_root(v, r)
}

/// A number has at most one rounded-down square root.
pub proof fn lemma_root_unique(v: int, r: int)
    requires
        is_root(v, r),
    ensures
        root(v) == r,
{
    let c = root(v);
    assert(is_root(v, c));
    if c < r {
        assert((c + 1) * (c + 1) <= r * r) by (nonlinear_arith)
            requires
                0 <= c + 1 <= r,
        ;
    }
    if r < c {
        assert((r + 1) * (r + 1) <= c * c) by (nonlinear_arith)
            requires
                0 <= r + 1 <= c,
        ;
    }
}

/// The square root of `v`, rounded down.
pub fn int_sqrt(v: u64) -> (r: u64)
    ensures
        is_root(v as int, r as int),
        r == root(v as int),
        r < 0x1_0000_0000,
{
    let mut low: u64 = 0;
    let mut high: u64 = 0x1_0000_0000;
    assert(0x1_0000_0000int * 0x1_0000_0000int > v) by (nonlinear_arith)
        requires
            v <= 0xffff_ffff_ffff_ffff,
    ;
    while high - low > 1
        invariant
            low < high <= 0x1_0000_0000,
            low * low <= v < high * high,
        decreases high - low,
    {
        let mid: u64 = low + (high - low) / 2;
        assert(mid * mid <= 0x1_0000_0000int * 0x1_0000_0000int) by (nonlinear_arith)
            requires
                0 <= mid <= 0x1_0000_0000,
        ;
        let square: u128 = mid as u128 * mid as u128;
        if square <= v as u128 {
            low = mid;
        } else {
            high = mid;
        }
    }
    proof {
        lemma_root_unique(v as int, low as int);
    }
    low
}

/// The size of a number.
pub open spec fn magnitude(a: int) -> int {
    if a < 0 {
        -a
    } else {
        a
    }
}

/// The larger component of a direction before its length is taken.
pub const COARSE_ONE: i64 = 0x4000_0000;

/// The component `a` of a step whose larger component has the size `m`,
/// scaled so that the larger one becomes [`COARSE_ONE`].
pub open spec fn coarse(a: int, m: int) -> int {
    a * COARSE_ONE / m
}

/// The direction of the step `(dx, dy)` as a vector of length one; the zero
/// vector for no step at all.
///
/// The step is first scaled so that its larger component is [`COARSE_ONE`],
/// then divided by its length, each time rounding down.
pub open spec fn unit_of(dx: int, dy: int) -> Point {
    let m = if magnitude(dx) >= magnitude(dy) {
        magnitude(dx)
    } else {
        magnitude(dy)
    };
    if m == 0 {
        Point { x: 0, y: 0 }
    } else {
        let ux = coarse(dx, m);
        let uy = coarse(dy, m);
        let n = root(ux * ux + uy * uy);
        Point { x: sat(ux * ONE / n) as i64, y: sat(uy * ONE / n) as i64 }
    }
}

/// A component scaled to the larger one has at most the size of
/// [`COARSE_ONE`], and exactly that where it is the larger one.
pub proof fn lemma_coarse_bounds(a: int, m: int)
    requires
        m > 0,
        -m <= a <= m,
    ensures
        -COARSE_ONE <= coarse(a, m) <= COARSE_ONE,
        a == m ==> coarse(a, m) == COARSE_ONE,
        a == -m ==> coarse(a, m) == -COARSE_ONE,
{
    let k = COARSE_ONE as int;
    assert(a * k <= m * k) by (nonlinear_arith)
        requires
            a <= m,
            k > 0,
    ;
    assert(a * k >= m * (-k)) by (nonlinear_arith)
        requires
            a >= -m,
            k > 0,
    ;
    lemma_div_is_ordered(a * k, m * k, m);
    lemma_div_is_ordered(m * (-k), a * k, m);
    lemma_div_multiples_vanish(k, m);
    lemma_div_multiples_vanish(-k, m);
    if a == -m {
        assert(a * k == m * (-k)) by (nonlinear_arith)
            requires
                a == -m,
        ;
    }
}

/// The direction from `from` towards `to` as a vector of length one.
pub fn direction(from: Point, to: Point) -> (d: Point)
    ensures
        d == unit_of(to.x - from.x, to.y - from.y),
{
    let dx: i128 = to.x as i128 - from.x as i128;
    let dy: i128 = to.y as i128 - from.y as i128;
    let ax: i128 = if dx < 0 { -dx } else { dx };
    let ay: i128 = if dy < 0 { -dy } else { dy };
    let m: i128 = if ax >= ay { ax } else { ay };
    if m == 0 {
        return Point { x: 0, y: 0 };
    }
    proof {
        lemma_coarse_bounds(dx as int, m as int);
        lemma_coarse_bounds(dy as int, m as int);
    }
    let ux: i128 = floor_div(dx * 0x4000_0000, m);
    let uy: i128 = floor_div(dy * 0x4000_0000, m);
    assert(0 <= ux * ux <= 0x4000_0000int * 0x4000_0000int) by (nonlinear_arith)
        requires
            -0x4000_0000 <= ux <= 0x4000_0000,
    ;
    assert(0 <= uy * uy <= 0x4000_0000int * 0x4000_0000int) by (nonlinear_arith)
        requires
            -0x4000_0000 <= uy <= 0x4000_0000,
    ;
    let square: u64 = (ux * ux + uy * uy) as u64;
    let n: u64 = int_sqrt(square);
    assert(n > 0) by {
        assert(ux == 0x4000_0000 || ux == -0x4000_0000 || uy == 0x4000_0000 || uy == -0x4000_0000);
        assert(ux * ux + uy * uy >= 0x4000_0000int * 0x4000_0000int) by (nonlinear_arith)
            requires
                ux == 0x4000_0000 || ux == -0x4000_0000 || uy == 0x4000_0000 || uy
                    == -0x4000_0000,
                0 <= ux * ux,
                0 <= uy * uy,
        ;
        assert((0int + 1) * (0int + 1) == 1) by (nonlinear_arith);
    }
    Point {
        x: narrow(floor_div(ux * 1_000_000, n as i128)),
        y: narrow(floor_div(uy * 1_000_000, n as i128)),
    }
}

/// A position or an extent in the plane.
#[derive(Clone, Copy, PartialEq, Eq, Structural, Debug)]
pub struct Point {
    pub x: i64,
    pub y: i64,
}

impl Point {
    /// The point that lies `by` further, component by component.
    pub open spec fn shifted(self, by: Point) -> Point {
        Point { x: plus(self.x as int, by.x as int) as i64, y: plus(self.y as int, by.y as int) as i64 }
    }

    /// The step that leads from `from` to `self`.
    pub open spec fn step_from(self, from: Point) -> Point {
        Point {
            x: minus(self.x as int, from.x as int) as i64,
            y: minus(self.y as int, from.y as int) as i64,
        }
    }

    /// The point moved as a pointer drag from `from` to `to` moves it.
    pub open spec fn dragged(self, from: Point, to: Point) -> Point {
        self.shifted(to.step_from(from))
    }

    pub fn new(x: i64, y: i64) -> (p: Point)
        ensures
            p == (Point { x, y }),
    {
        Point { x, y }
    }

    /// Moves the point by `by`, saturating.
    pub fn shift(self, by: Point) -> (p: Point)
        ensures
            p == self.shifted(by),
    {
        Point { x: sat_add(self.x, by.x), y: sat_add(self.y, by.y) }
    }

    /// The step from `from` to `self`, saturating.
    pub fn step(self, from: Point) -> (p: Point)
        ensures
            p == self.step_from(from),
    {
        Point { x: sat_sub(self.x, from.x), y: sat_sub(self.y, from.y) }
    }

    /// Applies the pointer movement from `from` to `to`.
    pub fn drag(self, from: Point, to: Point) -> (p: Point)
        ensures
            p == self.dragged(from, to),
    {
        self.shift(to.step(from))
    }
}

} // verus!
