//! The chopping board: onions are chopped on it, four at a time.
use crate::entity::{Entity, Selection};
use crate::fixed::{plus, sat_add, sat_mul, times, Point, ONE};
use crate::geometry::Rectangle;
use crate::onion::{Onion, OnionPiece};
use vstd::prelude::*;

verus! {

pub const BOARD_WIDTH: i64 = 90_000_000;

pub const BOARD_HEIGHT: i64 = 120_000_000;

/// How much of the chopping is done in a second.
pub const CHOP_SPEED: i64 = 250_000;

/// The chopping board. While the chopping is not done, holding the board
/// chops. Once it is done, each pick takes one onion off the board; with the
/// last one the board starts anew.
#[derive(Debug)]
pub struct ChoppingBoard {
    pub pos: Point,
    /// How much of the chopping is done, from zero to one.
    pub progress: i64,
    /// The onions that are still on the board.
    pub onions: Vec<Onion>,
}

/// A chopping board as a value.
pub struct BoardView {
    pub pos: Point,
    pub progress: i64,
    pub onions: Seq<Onion>,
}

impl View for ChoppingBoard {
    type V = BoardView;

    open spec fn view(&self) -> BoardView {
        BoardView { pos: self.pos, progress: self.progress, onions: self.onions@ }
    }
}

/// Four raw onions at `pos`, made of the pieces of `batch`.
pub open spec fn stock(pos: Point, batch: [[[OnionPiece; 3]; 4]; 4]) -> Seq<Onion> {
    seq![
        Onion::made(pos, 0, batch[0]),
        Onion::made(pos, 0, batch[1]),
        Onion::made(pos, 0, batch[2]),
        Onion::made(pos, 0, batch[3]),
    ]
}

impl BoardView {
    /// The box around the board.
    pub open spec fn extent(self) -> Rectangle {
        Rectangle::around(self.pos, Point { x: BOARD_WIDTH, y: BOARD_HEIGHT })
    }

    /// Whether the chopping is done.
    pub open spec fn ready(self) -> bool {
        self.progress >= ONE
    }

    /// The board after `dt` seconds of chopping.
    pub open spec fn chopped_for(self, dt: i64) -> BoardView {
        let more = plus(self.progress as int, times(dt as int, CHOP_SPEED as int));
        BoardView {
            progress: if more > ONE {
                ONE
            } else {
                more as i64
            },
            ..self
        }
    }

    /// Whether a pick at `pos` gets anything: the board itself while the
    /// chopping is not done, an onion afterwards.
    pub open spec fn answers(self, pos: Point) -> bool {
        self.extent().holds(pos) && (!self.ready() || self.onions.len() > 0)
    }

    /// The board after a pick at `pos`. The last onion leaves a board that
    /// starts anew, with four raw onions where the pointer is.
    pub open spec fn picked(self, pos: Point, batch: [[[OnionPiece; 3]; 4]; 4]) -> BoardView {
        if self.extent().holds(pos) && self.ready() && self.onions.len() > 0 {
            if self.onions.len() == 1 {
                BoardView { pos: self.pos, progress: 0, onions: stock(pos, batch) }
            } else {
                BoardView { onions: self.onions.drop_last(), ..self }
            }
        } else {
            self
        }
    }
}

impl ChoppingBoard {
    /// A board at `pos` on which nothing is chopped yet, with four raw
    /// onions made of the pieces of `batch`.
    pub fn new(pos: Point, batch: &[[[OnionPiece; 3]; 4]; 4]) -> (b: ChoppingBoard)
        ensures
            b@ == (BoardView { pos, progress: 0, onions: stock(pos, *batch) }),
    {
        ChoppingBoard { pos, progress: 0, onions: ChoppingBoard::restock(pos, batch) }
    }

    fn restock(pos: Point, batch: &[[[OnionPiece; 3]; 4]; 4]) -> (onions: Vec<Onion>)
        ensures
            onions@ == stock(pos, *batch),
    {
        let mut onions: Vec<Onion> = Vec::new();
        onions.push(Onion::new(pos, batch[0]));
        onions.push(Onion::new(pos, batch[1]));
        onions.push(Onion::new(pos, batch[2]));
        onions.push(Onion::new(pos, batch[3]));
        assert(onions@ =~= stock(pos, *batch));
        onions
    }

    pub fn bounds(&self) -> (r: Rectangle)
        ensures
            r == self@.extent(),
    {
        Rectangle::centered(self.pos, Point { x: BOARD_WIDTH, y: BOARD_HEIGHT })
    }

    /// Picks at `pos`.
    ///
    /// A pick outside the board gets nothing. While the chopping is not
    /// done, a pick on the board gets the board. Afterwards it takes the
    /// last onion off the board; with the last one the board starts anew,
    /// with four raw onions made of the pieces of `batch`.
    pub fn select(&mut self, pos: Point, batch: &[[[OnionPiece; 3]; 4]; 4]) -> (picked: Selection)
        ensures
            final(self)@ == old(self)@.picked(pos, *batch),
            !old(self)@.answers(pos) ==> picked is Nothing,
            old(self)@.answers(pos) && !old(self)@.ready() ==> picked is This,
            old(self)@.answers(pos) && old(self)@.ready() ==> picked == Selection::New(
                Entity::Onion(old(self)@.onions.last()),
            ),
    {
        if self.bounds().intersect_point(pos) {
            if self.progress < ONE {
                Selection::This
            } else {
                match self.onions.pop() {
                    Some(onion) => {
                        if self.onions.len() == 0 {
                            self.progress = 0;
                            self.onions = ChoppingBoard::restock(pos, batch);
                        }
                        Selection::New(Entity::Onion(onion))
                    },
                    None => Selection::Nothing,
                }
            }
        } else {
            Selection::Nothing
        }
    }

    /// Chops for `dt` seconds: the chopping is done at one, and stays there.
    pub fn update_selected(&mut self, dt: i64)
        ensures
            final(self)@ == old(self)@.chopped_for(dt),
    {
        let more = sat_add(self.progress, sat_mul(dt, CHOP_SPEED));
        self.progress = if more > ONE { ONE } else { more };
    }
}

} // verus!
