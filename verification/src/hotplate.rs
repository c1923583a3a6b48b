//! Hotplates and the table.
//!
//! A hotplate is hot in the middle and cool towards its edges, and unevenly
//! so. How warm it is at a point is the product of two envelopes, one across
//! and one down, and of a floor of heat raised by the square of a noise
//! value. The envelopes and the noise are tabulated when the hotplate is
//! made: one envelope value for each column and each row of a grid over the
//! hotplate, one noise value for each cell.
use crate::fixed::{floor_div, plus, sat_add, sat_mul, times, Point};
use crate::geometry::Rectangle;
use vstd::prelude::*;

verus! {

/// The heat at the middle of a hotplate where the noise is zero.
pub const MIN_HEAT: i64 = 30_000;

/// How much the noise adds to the heat at most.
pub const PERLIN_HEAT: i64 = 70_000;

#[derive(Debug)]
pub struct Hotplate {
    pub bounds: Rectangle,
    pub columns: u32,
    pub rows: u32,
    /// The envelope across, one value for each column.
    pub envelope_x: Vec<i64>,
    /// The envelope down, one value for each row.
    pub envelope_y: Vec<i64>,
    /// The noise, row by row, one value for each cell.
    pub noise: Vec<i64>,
}

/// A hotplate as a value.
pub struct HotplateView {
    pub bounds: Rectangle,
    pub columns: u32,
    pub rows: u32,
    pub envelope_x: Seq<i64>,
    pub envelope_y: Seq<i64>,
    pub noise: Seq<i64>,
}

impl View for Hotplate {
    type V = HotplateView;

    open spec fn view(&self) -> HotplateView {
        HotplateView {
            bounds: self.bounds,
            columns: self.columns,
            rows: self.rows,
            envelope_x: self.envelope_x@,
            envelope_y: self.envelope_y@,
            noise: self.noise@,
        }
    }
}

/// A table: it is there, and nothing else.
#[derive(PartialEq, Eq, Clone, Copy, Structural, Debug)]
pub struct Table {
    pub bounds: Rectangle,
}

/// The value at `i` of a table of samples; zero where the table ends
/// before `i`.
pub open spec fn sample(table: Seq<i64>, i: int) -> i64 {
    if 0 <= i < table.len() {
        table[i]
    } else {
        0
    }
}

/// The heat where the envelopes are `across` and `down` and the noise is
/// `noise`: `across * down * (MIN_HEAT + PERLIN_HEAT * noise * noise)`.
pub open spec fn heat_value(across: i64, down: i64, noise: i64) -> int {
    times(
        times(across as int, down as int),
        plus(
            MIN_HEAT as int,
            times(PERLIN_HEAT as int, times(noise as int, noise as int)),
        ),
    )
}

/// The column, or the row, of the grid that holds a point `offset` into a
/// hotplate that spans `span` and has `count` of them.
pub open spec fn cell(offset: int, count: int, span: int) -> int {
    offset * count / span
}

impl HotplateView {
    /// The heat of the hotplate at `pos`: zero outside its box.
    pub open spec fn heat_at(self, pos: Point) -> int {
        if !self.bounds.holds(pos) {
            0
        } else {
            let column = cell(pos.x - self.bounds.x, self.columns as int, self.bounds.w as int);
            let row = cell(pos.y - self.bounds.y, self.rows as int, self.bounds.h as int);
            heat_value(
                sample(self.envelope_x, column),
                sample(self.envelope_y, row),
                sample(self.noise, row * self.columns + column),
            )
        }
    }
}

/// The value at `i` of a table of samples; zero where the table ends
/// before `i`.
pub fn sample_of(table: &Vec<i64>, i: i128) -> (v: i64)
    ensures
        v == sample(table@, i as int),
{
    if 0 <= i && i < table.len() as i128 {
        table[i as usize]
    } else {
        0
    }
}

/// The heat where the envelopes are `across` and `down` and the noise is
/// `noise`.
pub fn heat_of(across: i64, down: i64, noise: i64) -> (heat: i64)
    ensures
        heat == heat_value(across, down, noise),
{
    sat_mul(
        sat_mul(across, down),
        sat_add(MIN_HEAT, sat_mul(PERLIN_HEAT, sat_mul(noise, noise))),
    )
}

/// The column, or the row, of the grid that holds a point `offset` into a
/// hotplate that spans `span` and has `count` of them.
pub fn cell_of(offset: i128, count: u32, span: i64) -> (c: i128)
    requires
        0 < offset < span,
    ensures
        c == cell(offset as int, count as int, span as int),
        0 <= c <= count,
{
    assert(0 <= offset * count <= span * count) by (nonlinear_arith)
        requires
            0 < offset < span,
            0 <= count,
    ;
    assert(span * count <= 0x8000_0000_0000_0000 * 0x1_0000_0000) by (nonlinear_arith)
        requires
            0 < span <= 0x8000_0000_0000_0000,
            0 <= count <= 0x1_0000_0000,
    ;
    proof {
        vstd::arithmetic::div_mod::lemma_div_is_ordered(0, offset * count, span as int);
        vstd::arithmetic::div_mod::lemma_div_is_ordered(
            offset * count,
            span * count,
            span as int,
        );
        vstd::arithmetic::div_mod::lemma_div_multiples_vanish(count as int, span as int);
    }
    floor_div(offset * (count as i128), span as i128)
}

impl Hotplate {
    /// A hotplate with its top-left corner at `pos`, with a grid of
    /// `columns` by `rows` cells over it.
    pub fn new(
        pos: Point,
        size: Point,
        columns: u32,
        rows: u32,
        envelope_x: Vec<i64>,
        envelope_y: Vec<i64>,
        noise: Vec<i64>,
    ) -> (h: Hotplate)
        ensures
            h@ == (HotplateView {
                bounds: Rectangle { x: pos.x, y: pos.y, w: size.x, h: size.y },
                columns,
                rows,
                envelope_x: envelope_x@,
                envelope_y: envelope_y@,
                noise: noise@,
            }),
    {
        Hotplate { bounds: Rectangle::new(pos, size), columns, rows, envelope_x, envelope_y, noise }
    }

    pub fn bounds(&self) -> (r: Rectangle)
        ensures
            r == self@.bounds,
    {
        self.bounds
    }

    /// The heat of the hotplate at `pos`: zero outside its box.
    pub fn heat(&self, pos: Point) -> (heat: i64)
        ensures
            heat == self@.heat_at(pos),
            !self@.bounds.holds(pos) ==> heat == 0,
    {
        if !self.bounds.intersect_point(pos) {
            0
        } else {
            let dx: i128 = pos.x as i128 - self.bounds.x as i128;
            let dy: i128 = pos.y as i128 - self.bounds.y as i128;
            let column: i128 = cell_of(dx, self.columns, self.bounds.w);
            let row: i128 = cell_of(dy, self.rows, self.bounds.h);
            assert(0 <= row * self.columns <= 0x1_0000_0000 * 0x1_0000_0000) by (nonlinear_arith)
                requires
                    0 <= row <= 0x1_0000_0000,
                    0 <= self.columns <= 0x1_0000_0000,
            ;
            let index: i128 = row * (self.columns as i128) + column;
            heat_of(
                sample_of(&self.envelope_x, column),
                sample_of(&self.envelope_y, row),
                sample_of(&self.noise, index),
            )
        }
    }
}

impl Table {
    /// A table with its top-left corner at `pos`.
    pub fn new(pos: Point, size: Point) -> (t: Table)
        ensures
            t.bounds == (Rectangle { x: pos.x, y: pos.y, w: size.x, h: size.y }),
    {
        Table { bounds: Rectangle::new(pos, size) }
    }

    pub fn bounds(&self) -> (r: Rectangle)
        ensures
            r == self.bounds,
    {
        self.bounds
    }
}

/// Outside its box a hotplate gives no heat at all.
pub proof fn lemma_no_heat_outside(hotplate: HotplateView, pos: Point)
    requires
        !hotplate.bounds.holds(pos),
    ensures
        hotplate.heat_at(pos) == 0,
{
}

/// Where both envelopes are one, as a sine envelope is in the middle of the
/// hotplate, the heat is the floor of heat raised by the squared noise.
pub proof fn lemma_heat_at_full_envelope(noise: i64)
    ensures
        heat_value(crate::fixed::ONE, crate::fixed::ONE, noise) == plus(
            MIN_HEAT as int,
            times(PERLIN_HEAT as int, times(noise as int, noise as int)),
        ),
{
    let inner = plus(
        MIN_HEAT as int,
        times(PERLIN_HEAT as int, times(noise as int, noise as int)),
    );
    assert(1_000_000 * inner / 1_000_000 == inner) by (nonlinear_arith);
}

} // verus!
