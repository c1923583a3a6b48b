//! Chopped onion: four layers of three arc-shaped pieces each.
//!
//! The layers cook at different speeds. Putting an onion down shuffles its
//! layers, each together with its cook level, and lays every piece out anew.
use crate::chance::random_between;
use crate::fixed::{plus, sat_add, sat_mul, times, Point, ONE};
use crate::geometry::Rectangle;
use crate::kinds::{Portion, Topping};
use crate::smoke::{draw_smoke_roll, puff, puffed, Smoke, SmokeRoll};
use vstd::prelude::*;
use vstd::seq_lib::to_multiset_update;

verus! {

pub const ONION_LAYERS: usize = 4;

pub const ONION_PIECES: usize = 3;

/// One arc-shaped piece of onion.
#[derive(PartialEq, Eq, Clone, Copy, Debug)]
pub struct OnionPiece {
    /// The box of the full circle that the arc is part of, from the onion.
    pub rect: Rectangle,
    /// The angle at which the arc starts.
    pub start: i64,
    /// The angle at which the arc ends.
    pub end: i64,
    pub thickness: i64,
    /// The box around the arc itself, from the onion.
    pub extent: Rectangle,
}

/// Where a piece is laid when the onion is put down.
#[derive(PartialEq, Eq, Clone, Copy, Debug)]
pub struct Placement {
    /// The new angle at which the arc starts; its length stays.
    pub start: i64,
    /// The new corner of the circle's box, from the onion.
    pub corner: Point,
    /// The box around the arc where it now lies, from the onion.
    pub extent: Rectangle,
}

/// A layer of onion: its pieces and how far it is cooked.
#[derive(PartialEq, Eq, Clone, Copy, Debug)]
pub struct OnionLayer {
    pub cooked: i64,
    pub pieces: [OnionPiece; 3],
}

#[derive(PartialEq, Eq, Clone, Copy, Debug)]
pub struct Onion {
    pub pos: Point,
    pub heat: i64,
    pub layers: [OnionLayer; 4],
    /// The box around all pieces.
    pub bounds: Rectangle,
}

/// The partners that the layers swap places with when an onion is put down:
/// one for the last layer, one for the third, one for the second.
#[derive(PartialEq, Eq, Clone, Copy, Debug)]
pub struct Shuffle {
    /// The partner of the last layer, from zero to three.
    pub last: u32,
    /// The partner of the third layer, from zero to two.
    pub third: u32,
    /// The partner of the second layer, zero or one.
    pub second: u32,
}

/// How fast the layer at place `i` cooks.
pub open spec fn layer_rate(i: int) -> int {
    if i == 0 {
        1_000_000
    } else if i == 1 {
        600_000
    } else if i == 2 {
        300_000
    } else {
        100_000
    }
}

/// The sequence with the items at `i` and `j` swapped.
pub open spec fn swapped<A>(s: Seq<A>, i: int, j: int) -> Seq<A> {
    s.update(i, s[j]).update(j, s[i])
}

/// The cook levels of the layers, in their order.
pub open spec fn cook_levels(layers: Seq<OnionLayer>) -> Seq<i64> {
    Seq::new(layers.len(), |i: int| layers[i].cooked)
}

/// The box around the first `k` pieces of an onion at `pos`, layer by layer.
pub open spec fn hull_upto(pos: Point, layers: Seq<OnionLayer>, k: int) -> Rectangle
    decreases k,
{
    if k <= 0 {
        Rectangle::around(pos, Point { x: 0, y: 0 })
    } else {
        hull_upto(pos, layers, k - 1).hull(layers[(k - 1) / 3].pieces[(k - 1) % 3].placed(pos))
    }
}

impl OnionPiece {
    /// The box around the piece of an onion at `pos`.
    pub open spec fn placed(self, pos: Point) -> Rectangle {
        self.extent.moved(pos)
    }

    /// The piece laid out anew: the arc keeps its length, its radius and its
    /// thickness.
    pub open spec fn laid(self, to: Placement) -> OnionPiece {
        OnionPiece {
            rect: Rectangle { x: to.corner.x, y: to.corner.y, ..self.rect },
            start: to.start,
            end: plus(to.start as int, crate::fixed::minus(self.end as int, self.start as int)) as i64,
            thickness: self.thickness,
            extent: to.extent,
        }
    }

    pub fn new(rect: Rectangle, start: i64, end: i64, thickness: i64, extent: Rectangle) -> (p:
        OnionPiece)
        ensures
            p == (OnionPiece { rect, start, end, thickness, extent }),
    {
        OnionPiece { rect, start, end, thickness, extent }
    }

    /// The box around the piece of an onion at `pos`.
    pub fn bounds(&self, pos: Point) -> (r: Rectangle)
        ensures
            r == self.placed(pos),
    {
        self.extent.shift(pos)
    }

    /// Lays the piece out anew.
    pub fn scramble(&mut self, to: &Placement)
        ensures
            *final(self) == old(self).laid(*to),
    {
        let len = crate::fixed::sat_sub(self.end, self.start);
        self.start = to.start;
        self.end = sat_add(to.start, len);
        self.rect = Rectangle { x: to.corner.x, y: to.corner.y, w: self.rect.w, h: self.rect.h };
        self.extent = to.extent;
    }
}

impl OnionLayer {
    /// The layer with each piece laid out anew.
    pub open spec fn laid(self, to: [Placement; 3]) -> OnionLayer {
        OnionLayer {
            cooked: self.cooked,
            pieces: [
                self.pieces[0].laid(to[0]),
                self.pieces[1].laid(to[1]),
                self.pieces[2].laid(to[2]),
            ],
        }
    }

    /// The layer after `dt` seconds at heat `heat` at place `i` of the onion.
    pub open spec fn cooked_for(self, dt: i64, heat: i64, i: int) -> OnionLayer {
        OnionLayer {
            cooked: plus(
                self.cooked as int,
                times(times(dt as int, heat as int), layer_rate(i)),
            ) as i64,
            pieces: self.pieces,
        }
    }
}

impl Shuffle {
    /// Draws the partners for a shuffle.
    pub fn draw() -> (picks: Shuffle)
        ensures
            picks.in_range(),
    {
        Shuffle {
            last: random_between(0, 4),
            third: random_between(0, 3),
            second: random_between(0, 2),
        }
    }

    /// Each partner lies at or before the layer that it swaps with.
    pub open spec fn in_range(self) -> bool {
        self.last < 4 && self.third < 3 && self.second < 2
    }

    /// The layers after the three swaps, the last layer first.
    pub open spec fn applied(self, layers: Seq<OnionLayer>) -> Seq<OnionLayer> {
        swapped(
            swapped(swapped(layers, 3, self.last as int % 4), 2, self.third as int % 3),
            1,
            self.second as int % 2,
        )
    }
}

impl Onion {
    /// The layers with each piece laid out anew.
    pub open spec fn relaid(layers: Seq<OnionLayer>, to: [[Placement; 3]; 4]) -> Seq<OnionLayer> {
        Seq::new(4, |i: int| layers[i].laid(to[i]))
    }

    /// The layers after `dt` seconds at heat `heat`.
    pub open spec fn layers_cooked_for(layers: Seq<OnionLayer>, dt: i64, heat: i64) -> Seq<
        OnionLayer,
    > {
        Seq::new(4, |i: int| layers[i].cooked_for(dt, heat, i))
    }

    /// The least cook level among the first `k` layers.
    pub open spec fn rarest(layers: Seq<OnionLayer>, k: int) -> i64
        decreases k,
    {
        if k <= 1 {
            layers[0].cooked
        } else if layers[k - 1].cooked < Onion::rarest(layers, k - 1) {
            layers[k - 1].cooked
        } else {
            Onion::rarest(layers, k - 1)
        }
    }

    /// The greatest cook level among the first `k` layers.
    pub open spec fn most_done(layers: Seq<OnionLayer>, k: int) -> i64
        decreases k,
    {
        if k <= 1 {
            layers[0].cooked
        } else if layers[k - 1].cooked > Onion::most_done(layers, k - 1) {
            layers[k - 1].cooked
        } else {
            Onion::most_done(layers, k - 1)
        }
    }

    /// The onion as a customer sees it.
    pub open spec fn as_portion(self) -> Portion {
        Portion {
            kind: Topping::Onion,
            rare: Onion::rarest(self.layers@, 4),
            done: Onion::most_done(self.layers@, 4),
        }
    }

    /// The onion with the layers `layers`.
    pub open spec fn with_layers(self, layers: Seq<OnionLayer>) -> Onion {
        Onion { layers: [layers[0], layers[1], layers[2], layers[3]], ..self }
    }

    /// The onion after `dt` seconds at its present heat.
    pub open spec fn cooked_for(self, dt: i64) -> Onion {
        self.with_layers(Onion::layers_cooked_for(self.layers@, dt, self.heat))
    }

    /// The onion with every piece laid out as `fresh` says and the layers
    /// shuffled as `picks` says, in a box that fits the new layout.
    pub open spec fn scrambled(self, picks: Shuffle, fresh: [[Placement; 3]; 4]) -> Onion {
        let layers = picks.applied(Onion::relaid(self.layers@, fresh));
        Onion { bounds: hull_upto(self.pos, layers, 12), ..self.with_layers(layers) }
    }

    /// The onion put down: scrambled, and off the heat.
    pub open spec fn put_down(self, picks: Shuffle, fresh: [[Placement; 3]; 4]) -> Onion {
        Onion { heat: 0, ..self.scrambled(picks, fresh) }
    }

    /// The onion moved as a pointer drag from `from` to `to` moves it.
    pub open spec fn dragged(self, from: Point, to: Point) -> Onion {
        Onion {
            pos: self.pos.dragged(from, to),
            bounds: self.bounds.moved(to.step_from(from)),
            ..self
        }
    }

    /// The onion at `pos` that is made of `pieces`, every layer cooked to
    /// `cooked`.
    pub open spec fn made(pos: Point, cooked: i64, pieces: [[OnionPiece; 3]; 4]) -> Onion {
        let layers = [
            OnionLayer { cooked, pieces: pieces[0] },
            OnionLayer { cooked, pieces: pieces[1] },
            OnionLayer { cooked, pieces: pieces[2] },
            OnionLayer { cooked, pieces: pieces[3] },
        ];
        Onion { pos, heat: 0, layers, bounds: hull_upto(pos, layers@, 12) }
    }

    /// The box around all the pieces of the layers of an onion at `pos`.
    pub fn hull(pos: Point, layers: &[OnionLayer; 4]) -> (r: Rectangle)
        ensures
            r == hull_upto(pos, layers@, 12),
    {
        let mut bounds = Rectangle::centered(pos, Point { x: 0, y: 0 });
        let mut k: usize = 0;
        while k < 12
            invariant
                k <= 12,
                bounds == hull_upto(pos, layers@, k as int),
            decreases 12 - k,
        {
            let piece = layers[k / 3].pieces[k % 3];
            bounds = bounds.union(&piece.bounds(pos));
            k += 1;
        }
        bounds
    }

    /// A raw onion at `pos`, made of `pieces`.
    pub fn new(pos: Point, pieces: [[OnionPiece; 3]; 4]) -> (o: Onion)
        ensures
            o == Onion::made(pos, 0, pieces),
    {
        Onion::with_cooked(pos, 0, pieces)
    }

    /// An onion at `pos`, made of `pieces`, every layer cooked to `cooked`.
    pub fn with_cooked(pos: Point, cooked: i64, pieces: [[OnionPiece; 3]; 4]) -> (o: Onion)
        ensures
            o == Onion::made(pos, cooked, pieces),
    {
        let layers = [
            OnionLayer { cooked, pieces: pieces[0] },
            OnionLayer { cooked, pieces: pieces[1] },
            OnionLayer { cooked, pieces: pieces[2] },
            OnionLayer { cooked, pieces: pieces[3] },
        ];
        let bounds = Onion::hull(pos, &layers);
        Onion { pos, heat: 0, layers, bounds }
    }

    /// Lays every piece out as `fresh` says, shuffles the layers as `picks`
    /// says, and sets the box around the new layout. A layer takes its cook
    /// level with it.
    pub fn scramble_with(&mut self, picks: &Shuffle, fresh: &[[Placement; 3]; 4])
        ensures
            *final(self) == old(self).scrambled(*picks, *fresh),
            cook_levels(final(self).layers@).to_multiset() == cook_levels(
                old(self).layers@,
            ).to_multiset(),
    {
        let mut i: usize = 0;
        while i < 4
            invariant
                i <= 4,
                self.pos == old(self).pos,
                self.heat == old(self).heat,
                forall|k: int| 0 <= k < i ==> self.layers@[k] == old(self).layers@[k].laid(fresh[k]),
                forall|k: int| i <= k < 4 ==> self.layers@[k] == old(self).layers@[k],
            decreases 4 - i,
        {
            let mut layer = self.layers[i];
            let mut p0 = layer.pieces[0];
            let mut p1 = layer.pieces[1];
            let mut p2 = layer.pieces[2];
            p0.scramble(&fresh[i][0]);
            p1.scramble(&fresh[i][1]);
            p2.scramble(&fresh[i][2]);
            layer.pieces = [p0, p1, p2];
            self.layers[i] = layer;
            i += 1;
        }
        assert(self.layers@ =~= Onion::relaid(old(self).layers@, *fresh));
        proof {
            assert(cook_levels(self.layers@) =~= cook_levels(old(self).layers@));
        }
        self.swap_layers(3, (picks.last % 4) as usize);
        self.swap_layers(2, (picks.third % 3) as usize);
        self.swap_layers(1, (picks.second % 2) as usize);
        self.bounds = Onion::hull(self.pos, &self.layers);
        assert(self.layers =~= old(self).scrambled(*picks, *fresh).layers);
    }

    /// Swaps the layers at `i` and `j`.
    fn swap_layers(&mut self, i: usize, j: usize)
        requires
            i < 4,
            j < 4,
        ensures
            final(self).pos == old(self).pos,
            final(self).heat == old(self).heat,
            final(self).bounds == old(self).bounds,
            final(self).layers@ == swapped(old(self).layers@, i as int, j as int),
            cook_levels(final(self).layers@).to_multiset() == cook_levels(
                old(self).layers@,
            ).to_multiset(),
    {
        let a = self.layers[i];
        let b = self.layers[j];
        self.layers[i] = b;
        self.layers[j] = a;
        proof {
            let before = cook_levels(old(self).layers@);
            assert(cook_levels(self.layers@) =~= swapped(before, i as int, j as int));
            lemma_swap_keeps_multiset(before, i as int, j as int);
        }
    }

    /// Puts the onion down: it is scrambled as `picks` and `fresh` say, and
    /// leaves the heat.
    pub fn drop_with(&mut self, picks: &Shuffle, fresh: &[[Placement; 3]; 4])
        ensures
            *final(self) == old(self).put_down(*picks, *fresh),
            cook_levels(final(self).layers@).to_multiset() == cook_levels(
                old(self).layers@,
            ).to_multiset(),
    {
        self.scramble_with(picks, fresh);
        self.heat = 0;
    }

    /// Puts the onion down: it is scrambled and leaves the heat. The layers
    /// are shuffled at random.
    pub fn drop(&mut self, fresh: &[[Placement; 3]; 4])
        ensures
            exists|picks: Shuffle|
                picks.in_range() && *final(self) == #[trigger] old(self).put_down(picks, *fresh),
            cook_levels(final(self).layers@).to_multiset() == cook_levels(
                old(self).layers@,
            ).to_multiset(),
    {
        let picks = Shuffle::draw();
        self.drop_with(&picks, fresh);
    }

    /// Scrambles the onion: every piece is laid out as `fresh` says and the
    /// layers are shuffled at random, each with its cook level.
    pub fn scramble(&mut self, fresh: &[[Placement; 3]; 4])
        ensures
            exists|picks: Shuffle|
                picks.in_range() && *final(self) == #[trigger] old(self).scrambled(picks, *fresh),
            cook_levels(final(self).layers@).to_multiset() == cook_levels(
                old(self).layers@,
            ).to_multiset(),
    {
        let picks = Shuffle::draw();
        self.scramble_with(&picks, fresh);
    }

    pub fn bounds(&self) -> (r: Rectangle)
        ensures
            r == self.bounds,
    {
        self.bounds
    }

    /// Whether the pointer at `pos` picks the onion.
    pub fn select(&self, pos: Point) -> (hit: bool)
        ensures
            hit == self.bounds.holds(pos),
    {
        self.bounds.intersect_point(pos)
    }

    /// Cooks every layer for `dt` seconds, the first layer fastest, and gives
    /// off the puff of smoke that the draws call for.
    pub fn update_with(&mut self, dt: i64, roll: &SmokeRoll) -> (smoke: Option<Smoke>)
        ensures
            *final(self) == old(self).cooked_for(dt),
            smoke == puffed(
                old(self).bounds,
                final(self).layers@[0].cooked,
                dt,
                old(self).heat,
                *roll,
            ),
    {
        let warmth = sat_mul(dt, self.heat);
        let mut i: usize = 0;
        while i < 4
            invariant
                i <= 4,
                warmth == times(dt as int, old(self).heat as int),
                self.pos == old(self).pos,
                self.heat == old(self).heat,
                self.bounds == old(self).bounds,
                forall|k: int|
                    0 <= k < i ==> self.layers@[k] == old(self).layers@[k].cooked_for(
                        dt,
                        old(self).heat,
                        k,
                    ),
                forall|k: int| i <= k < 4 ==> self.layers@[k] == old(self).layers@[k],
            decreases 4 - i,
        {
            let rate: i64 = if i == 0 {
                1_000_000
            } else if i == 1 {
                600_000
            } else if i == 2 {
                300_000
            } else {
                100_000
            };
            let mut layer = self.layers[i];
            layer.cooked = sat_add(layer.cooked, sat_mul(warmth, rate));
            self.layers[i] = layer;
            i += 1;
        }
        assert(self.layers@ =~= Onion::layers_cooked_for(old(self).layers@, dt, old(self).heat));
        assert(self.layers =~= old(self).cooked_for(dt).layers);
        puff(&self.bounds, self.layers[0].cooked, dt, self.heat, roll)
    }

    /// Cooks every layer for `dt` seconds; now and then a puff of smoke rises.
    pub fn update(&mut self, dt: i64) -> (smoke: Option<Smoke>)
        ensures
            *final(self) == old(self).cooked_for(dt),
            exists|roll: SmokeRoll|
                roll.in_range() && smoke == #[trigger] puffed(
                    old(self).bounds,
                    final(self).layers@[0].cooked,
                    dt,
                    old(self).heat,
                    roll,
                ),
    {
        let roll = draw_smoke_roll();
        self.update_with(dt, &roll)
    }

    /// The cook levels of the least and of the most cooked layer.
    pub fn cooked(&self) -> (range: (i64, i64))
        ensures
            range.0 == self.as_portion().rare,
            range.1 == self.as_portion().done,
    {
        let mut low = self.layers[0].cooked;
        let mut high = self.layers[0].cooked;
        let mut k: usize = 1;
        while k < 4
            invariant
                1 <= k <= 4,
                low == Onion::rarest(self.layers@, k as int),
                high == Onion::most_done(self.layers@, k as int),
            decreases 4 - k,
        {
            let c = self.layers[k].cooked;
            if c < low {
                low = c;
            }
            if c > high {
                high = c;
            }
            k += 1;
        }
        (low, high)
    }

    /// Moves the onion as a pointer drag from `from` to `to` does.
    pub fn drag(&mut self, from: Point, to: Point)
        ensures
            *final(self) == old(self).dragged(from, to),
    {
        let by = to.step(from);
        self.pos = self.pos.shift(by);
        self.bounds = self.bounds.shift(by);
    }

    pub fn set_pos(&mut self, pos: Point)
        ensures
            *final(self) == old(self).dragged(old(self).pos, pos),
    {
        let from = self.pos;
        self.drag(from, pos);
    }

    pub fn set_heat(&mut self, heat: i64)
        ensures
            *final(self) == (Onion { heat, ..*old(self) }),
    {
        self.heat = heat;
    }

    pub fn topping(&self) -> (t: Option<Topping>)
        ensures
            t == Some(Topping::Onion),
    {
        Some(Topping::Onion)
    }
}

/// Swapping two items of a sequence changes nothing in what it holds.
pub proof fn lemma_swap_keeps_multiset<A>(s: Seq<A>, i: int, j: int)
    requires
        0 <= i < s.len(),
        0 <= j < s.len(),
    ensures
        swapped(s, i, j).to_multiset() == s.to_multiset(),
{
    broadcast use {
        vstd::multiset::group_multiset_axioms,
        vstd::multiset::group_multiset_properties,
        vstd::seq_lib::to_multiset_contains,
    };

    if i == j {
        assert(swapped(s, i, j) =~= s);
    } else {
        let s1 = s.update(i, s[j]);
        to_multiset_update(s, i, s[j]);
        to_multiset_update(s1, j, s[i]);
        assert(s.contains(s[i]));
        assert(s.contains(s[j]));
        assert(s1.contains(s1[j]));
        let m = s.to_multiset();
        assert(m.count(s[i]) > 0);
        assert(m.count(s[j]) > 0);
        assert forall|v: A| swapped(s, i, j).to_multiset().count(v) == m.count(v) by {
            let m1 = m.insert(s[j]).remove(s[i]);
            let m2 = m1.insert(s[i]).remove(s[j]);
            assert(swapped(s, i, j).to_multiset() == m2);
        }
        assert(swapped(s, i, j).to_multiset() =~= m);
    }
}

/// However an onion is scrambled, it holds the same cook levels as before,
/// each as often as before.
pub proof fn lemma_scramble_keeps_cook_levels(
    onion: Onion,
    picks: Shuffle,
    fresh: [[Placement; 3]; 4],
)
    ensures
        cook_levels(onion.scrambled(picks, fresh).layers@).to_multiset() == cook_levels(
            onion.layers@,
        ).to_multiset(),
        cook_levels(onion.put_down(picks, fresh).layers@).to_multiset() == cook_levels(
            onion.layers@,
        ).to_multiset(),
{
    let layers = onion.layers@;
    let a = Onion::relaid(layers, fresh);
    assert(cook_levels(a) =~= cook_levels(layers));
    let l = picks.last as int % 4;
    let t = picks.third as int % 3;
    let s = picks.second as int % 2;
    let b = swapped(a, 3, l);
    let c = swapped(b, 2, t);
    let d = swapped(c, 1, s);
    assert(cook_levels(b) =~= swapped(cook_levels(a), 3, l));
    assert(cook_levels(c) =~= swapped(cook_levels(b), 2, t));
    assert(cook_levels(d) =~= swapped(cook_levels(c), 1, s));
    lemma_swap_keeps_multiset(cook_levels(a), 3, l);
    lemma_swap_keeps_multiset(cook_levels(b), 2, t);
    lemma_swap_keeps_multiset(cook_levels(c), 1, s);
    assert(onion.scrambled(picks, fresh).layers@ =~= d);
}

} // verus!
