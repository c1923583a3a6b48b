//! Axis-aligned rectangles.
use crate::fixed::{half, minus, narrow, plus, sat, sat_add, sat_sub, Point};
use vstd::prelude::*;

verus! {

/// An axis-aligned box: its top-left corner and its size. The y axis grows
/// downwards. A box of an entity has a width and a height of zero or more.
#[derive(Clone, Copy, PartialEq, Eq, Structural, Debug)]
pub struct Rectangle {
    pub x: i64,
    pub y: i64,
    pub w: i64,
    pub h: i64,
}

/// The smaller of two numbers.
pub open spec fn least(a: int, b: int) -> int {
    if a <= b {
        a
    } else {
        b
    }
}

/// The larger of two numbers.
pub open spec fn greatest(a: int, b: int) -> int {
    if a >= b {
        a
    } else {
        b
    }
}

impl Rectangle {
    /// The right edge, as a number without bounds.
    pub open spec fn right(self) -> int {
        self.x + self.w
    }

    /// The bottom edge, as a number without bounds.
    pub open spec fn bottom(self) -> int {
        self.y + self.h
    }

    /// Neither the width nor the height is negative.
    pub open spec fn valid(self) -> bool {
        self.w >= 0 && self.h >= 0
    }

    /// The point lies strictly inside the box.
    pub open spec fn holds(self, point: Point) -> bool {
        &&& point.x > self.x
        &&& point.x < self.right()
        &&& point.y > self.y
        &&& point.y < self.bottom()
    }

    /// The interiors of the two boxes overlap.
    pub open spec fn overlaps(self, other: Rectangle) -> bool {
        &&& other.right() > self.x
        &&& other.x < self.right()
        &&& other.bottom() > self.y
        &&& other.y < self.bottom()
    }

    /// The box of size `size` whose middle is `pos`.
    pub open spec fn around(pos: Point, size: Point) -> Rectangle {
        Rectangle {
            x: minus(pos.x as int, size.x as int / 2) as i64,
            y: minus(pos.y as int, size.y as int / 2) as i64,
            w: size.x,
            h: size.y,
        }
    }

    /// The middle of the box.
    pub open spec fn middle(self) -> Point {
        Point {
            x: plus(self.x as int, self.w as int / 2) as i64,
            y: plus(self.y as int, self.h as int / 2) as i64,
        }
    }

    /// The smallest box that holds both boxes.
    pub open spec fn hull(self, other: Rectangle) -> Rectangle {
        let left = least(self.x as int, other.x as int);
        let top = least(self.y as int, other.y as int);
        Rectangle {
            x: left as i64,
            y: top as i64,
            w: sat(greatest(self.right(), other.right()) - left) as i64,
            h: sat(greatest(self.bottom(), other.bottom()) - top) as i64,
        }
    }

    /// The box moved by `by`, saturating.
    pub open spec fn moved(self, by: Point) -> Rectangle {
        Rectangle {
            x: plus(self.x as int, by.x as int) as i64,
            y: plus(self.y as int, by.y as int) as i64,
            w: self.w,
            h: self.h,
        }
    }

    /// The box with top-left corner `pos` and size `size`.
    pub fn new(pos: Point, size: Point) -> (r: Rectangle)
        ensures
            r == (Rectangle { x: pos.x, y: pos.y, w: size.x, h: size.y }),
    {
        Rectangle { x: pos.x, y: pos.y, w: size.x, h: size.y }
    }

    /// The box of size `size` whose middle is `pos`.
    pub fn centered(pos: Point, size: Point) -> (r: Rectangle)
        ensures
            r == Rectangle::around(pos, size),
    {
        Rectangle {
            x: sat_sub(pos.x, half(size.x)),
            y: sat_sub(pos.y, half(size.y)),
            w: size.x,
            h: size.y,
        }
    }

    /// Whether `point` lies strictly inside the box.
    pub fn intersect_point(&self, point: Point) -> (inside: bool)
        ensures
            inside == self.holds(point),
    {
        point.x > self.x && (point.x as i128) < self.x as i128 + self.w as i128 && point.y > self.y
            && (point.y as i128) < self.y as i128 + self.h as i128
    }

    /// Whether the interiors of the two boxes overlap.
    pub fn intersect_rect(&self, rect: &Rectangle) -> (overlap: bool)
        ensures
            overlap == self.overlaps(*rect),
    {
        rect.x as i128 + rect.w as i128 > self.x as i128 && (rect.x as i128) < self.x as i128
            + self.w as i128 && rect.y as i128 + rect.h as i128 > self.y as i128 && (rect.y as i128)
            < self.y as i128 + self.h as i128
    }

    /// The middle of the box.
    pub fn centre(&self) -> (p: Point)
        ensures
            p == self.middle(),
    {
        Point { x: sat_add(self.x, half(self.w)), y: sat_add(self.y, half(self.h)) }
    }

    /// The smallest box that holds both boxes.
    pub fn union(&self, rect: &Rectangle) -> (r: Rectangle)
        ensures
            r == self.hull(*rect),
    {
        let xmin: i64 = if self.x <= rect.x { self.x } else { rect.x };
        let ymin: i64 = if self.y <= rect.y { self.y } else { rect.y };
        let r1: i128 = self.x as i128 + self.w as i128;
        let r2: i128 = rect.x as i128 + rect.w as i128;
        let b1: i128 = self.y as i128 + self.h as i128;
        let b2: i128 = rect.y as i128 + rect.h as i128;
        let xmax: i128 = if r1 >= r2 { r1 } else { r2 };
        let ymax: i128 = if b1 >= b2 { b1 } else { b2 };
        Rectangle {
            x: xmin,
            y: ymin,
            w: narrow(xmax - xmin as i128),
            h: narrow(ymax - ymin as i128),
        }
    }

    /// The box moved by `by`, saturating.
    pub fn shift(&self, by: Point) -> (r: Rectangle)
        ensures
            r == self.moved(by),
    {
        Rectangle { x: sat_add(self.x, by.x), y: sat_add(self.y, by.y), w: self.w, h: self.h }
    }

    /// The corner and the size as four numbers: x, y, width, height.
    pub fn as_array(self) -> (a: [i64; 4])
        ensures
            a@ == seq![self.x, self.y, self.w, self.h],
    {
        [self.x, self.y, self.w, self.h]
    }
}

/// A box built around a point holds that point, where the size is at least
/// two units each way and the point is not on the lowest coordinate.
pub proof fn lemma_centered_holds_centre(pos: Point, size: Point)
    requires
        size.x >= 2,
        size.y >= 2,
        pos.x > i64::MIN,
        pos.y > i64::MIN,
    ensures
        Rectangle::around(pos, size).holds(pos),
{
}

/// The union of two boxes reaches as far as each of them on all four sides,
/// where neither has a negative size and the union's own size fits the
/// number range.
pub proof fn lemma_union_contains_both(a: Rectangle, b: Rectangle)
    requires
        a.valid(),
        b.valid(),
        greatest(a.right(), b.right()) - least(a.x as int, b.x as int) <= i64::MAX,
        greatest(a.bottom(), b.bottom()) - least(a.y as int, b.y as int) <= i64::MAX,
    ensures
        a.hull(b).x <= a.x,
        a.hull(b).x <= b.x,
        a.hull(b).y <= a.y,
        a.hull(b).y <= b.y,
        a.hull(b).right() >= a.right(),
        a.hull(b).right() >= b.right(),
        a.hull(b).bottom() >= a.bottom(),
        a.hull(b).bottom() >= b.bottom(),
        a.hull(b).valid(),
{
}

/// Two boxes overlap whichever of them is asked.
pub proof fn lemma_intersect_symmetric(a: Rectangle, b: Rectangle)
    ensures
        a.overlaps(b) == b.overlaps(a),
{
}

} // verus!
