//! The falling piece: its placement, and the moves that change it, each
//! checked against the field.
use vstd::prelude::*;
use crate::board::{cell, Grid};
use crate::pos::{in_bounds, Pos};
use crate::shape::{int_pairs, offsets, rotated, State, Tetromino};

verus! {

/// Row of the origin of a newly spawned piece.
pub const SPAWN_ROW: usize = 20;

/// Column of the origin of a newly spawned piece.
pub const SPAWN_COL: usize = 4;

/// The cells covered by a piece of kind `k` in rotation `rot` whose origin
/// is at (row, col).
pub open spec fn squares(k: Tetromino, row: int, col: int, rot: State) -> Seq<(int, int)> {
    offsets(k, rot).map_values(|o: (int, int)| (row + o.0, col + o.1))
}

/// Whether every one of `cells` lies on the field and is empty.
pub open spec fn fits(b: Grid, cells: Seq<(int, int)>) -> bool {
    forall|i: int|
        0 <= i < cells.len() ==> in_bounds(#[trigger] cells[i].0, cells[i].1) && cell(
            b,
            cells[i].0,
            cells[i].1,
        ) == 0
}

/// Whether a piece of kind `k` in rotation `rot` can stand with its origin
/// at (row, col): the origin is on the field and every cell is free.
pub open spec fn fits_at(b: Grid, k: Tetromino, row: int, col: int, rot: State) -> bool {
    in_bounds(row, col) && fits(b, squares(k, row, col, rot))
}

/// Wall-kick offsets, as (row offset, column offset) pairs, of the
/// I piece for one pair of rotations, and the other pair.
pub open spec fn kicks_i1() -> Seq<(int, int)> {
    seq![(0, -2), (0, 1), (-1, -2), (-2, 1)]
}

/// Wall-kick offsets of the I piece for the remaining rotations.
pub open spec fn kicks_i2() -> Seq<(int, int)> {
    seq![(0, -1), (0, 2), (-2, -1), (1, 2)]
}

/// Wall-kick offsets shared by the J, L, S, T and Z pieces.
pub open spec fn kicks_common() -> Seq<(int, int)> {
    seq![(0, -1), (-1, -1), (2, 0), (2, -1)]
}

/// `s` with both offsets of each pair negated.
pub open spec fn negate_both(s: Seq<(int, int)>) -> Seq<(int, int)> {
    s.map_values(|o: (int, int)| (-o.0, -o.1))
}

/// `s` with the row offset of each pair negated.
pub open spec fn negate_row(s: Seq<(int, int)>) -> Seq<(int, int)> {
    s.map_values(|o: (int, int)| (-o.0, o.1))
}

/// `s` with the column offset of each pair negated.
pub open spec fn negate_col(s: Seq<(int, int)>) -> Seq<(int, int)> {
    s.map_values(|o: (int, int)| (o.0, -o.1))
}

/// The four kick offsets tried when a piece of kind `k` (not O) turns from
/// `from`, clockwise or not.
pub open spec fn kicks(k: Tetromino, from: State, clockwise: bool) -> Seq<(int, int)> {
    if k is I {
        match (from, clockwise) {
            (State::Up, true) | (State::Left, false) => kicks_i1(),
            (State::Right, false) | (State::Down, true) => negate_both(kicks_i1()),
            (State::Right, true) | (State::Up, false) => kicks_i2(),
            (State::Down, false) | (State::Left, true) => negate_both(kicks_i2()),
        }
    } else {
        match (from, clockwise) {
            (State::Up, true) | (State::Down, false) => kicks_common(),
            (State::Right, false) | (State::Right, true) => negate_both(kicks_common()),
            (State::Down, true) | (State::Left, true) => negate_col(kicks_common()),
            (State::Left, false) | (State::Up, false) => negate_row(kicks_common()),
        }
    }
}

/// The shift of the first origin tried when a piece of kind `k` turns into
/// `to`: none, except for the I piece, whose shape is not centred on its
/// origin.
pub open spec fn basic_shift(k: Tetromino, clockwise: bool, to: State) -> (int, int) {
    if k is I {
        match (clockwise, to) {
            (true, State::Up) | (false, State::Right) => (-1, 0),
            (true, State::Right) | (false, State::Down) => (0, 1),
            (true, State::Down) | (false, State::Left) => (1, 0),
            (true, State::Left) | (false, State::Up) => (0, -1),
        }
    } else {
        (0, 0)
    }
}

/// The origins tried, in order, when piece `p` turns: the basic one, then
/// the basic one moved by each kick offset. The O piece tries none.
pub open spec fn rotation_candidates(p: ActivePiece, clockwise: bool) -> Seq<(int, int)> {
    candidates(p.tetromino, p.origin.row(), p.origin.col(), p.rotation, clockwise)
}

/// The origins tried, in order, when a piece of kind `k` in rotation `rot`
/// with its origin at (row, col) turns.
pub open spec fn candidates(k: Tetromino, row: int, col: int, rot: State, clockwise: bool) -> Seq<
    (int, int),
> {
    if k is O {
        seq![]
    } else {
        let to = rotated(rot, clockwise);
        let shift = basic_shift(k, clockwise, to);
        let base = (row + shift.0, col + shift.1);
        seq![base] + kicks(k, rot, clockwise).map_values(
            |o: (int, int)| (base.0 + o.0, base.1 + o.1),
        )
    }
}

/// The first of `cands` where a piece of kind `k` in rotation `rot` fits.
pub open spec fn first_fit(b: Grid, k: Tetromino, rot: State, cands: Seq<(int, int)>) -> Option<
    (int, int),
>
    decreases cands.len(),
{
    if cands.len() == 0 {
        None
    } else if fits_at(b, k, cands[0].0, cands[0].1, rot) {
        Some(cands[0])
    } else {
        first_fit(b, k, rot, cands.drop_first())
    }
}

/// The piece that is falling: its kind, the coordinate its shape is
/// placed relative to, and its rotation.
#[derive(Debug, Clone, Copy)]
pub struct ActivePiece {
    pub tetromino: Tetromino,
    pub origin: Pos,
    pub rotation: State,
}

impl ActivePiece {
    /// The four cells that this piece covers.
    pub open spec fn cells(self) -> Seq<(int, int)> {
        squares(self.tetromino, self.origin.row(), self.origin.col(), self.rotation)
    }

    /// Whether this piece, placed as it is, has its origin at (row, col) and
    /// the given rotation, kind unchanged from `p`.
    pub open spec fn placed(self, p: ActivePiece, row: int, col: int, rot: State) -> bool {
        &&& self.tetromino == p.tetromino
        &&& self.origin.row() == row
        &&& self.origin.col() == col
        &&& self.rotation == rot
    }

    /// A piece of kind `tetromino` at the spawn position, unrotated.
    pub fn new(tetromino: Tetromino) -> (r: ActivePiece)
        ensures
            r.tetromino == tetromino,
            r.origin.row() == SPAWN_ROW,
            r.origin.col() == SPAWN_COL,
            r.rotation == State::Up,
    {
        ActivePiece { tetromino, origin: Pos::new(SPAWN_ROW, SPAWN_COL), rotation: State::Up }
    }

    /// The (row, column) of each of the four cells that this piece covers.
    pub fn get_squares(&self) -> (r: [(i32, i32); 4])
        ensures
            int_pairs(r@) == self.cells(),
    {
        let (y, x) = self.origin.coords();
        let (y, x) = (y as i32, x as i32);
        let s = self.tetromino.shape(self.rotation);
        assert(int_pairs(s@)[0] == offsets(self.tetromino, self.rotation)[0]);
        assert(int_pairs(s@)[1] == offsets(self.tetromino, self.rotation)[1]);
        assert(int_pairs(s@)[2] == offsets(self.tetromino, self.rotation)[2]);
        assert(int_pairs(s@)[3] == offsets(self.tetromino, self.rotation)[3]);
        proof {
            crate::shape::lemma_offsets_small(self.tetromino, self.rotation);
        }
        let r = [
            (y + s[0].0, x + s[0].1),
            (y + s[1].0, x + s[1].1),
            (y + s[2].0, x + s[2].1),
            (y + s[3].0, x + s[3].1),
        ];
        assert(int_pairs(r@) =~= self.cells());
        r
    }

    /// Moves this piece to the origin and rotation of `new_state` if all
    /// four of its cells lie on the field and are empty; otherwise leaves
    /// it as it was. Returns whether it moved.
    pub fn validate(&mut self, new_state: &ActivePiece, board: &Grid) -> (r: bool)
        ensures
            r == fits(*board, new_state.cells()),
            r ==> final(self).placed(
                *old(self),
                new_state.origin.row(),
                new_state.origin.col(),
                new_state.rotation,
            ),
            !r ==> *final(self) == *old(self),
    {
        let squares = new_state.get_squares();
        let mut i: usize = 0;
        while i < 4
            invariant
                i <= 4,
                int_pairs(squares@) == new_state.cells(),
                forall|j: int|
                    0 <= j < i ==> in_bounds(#[trigger] squares@[j].0 as int, squares@[j].1 as int)
                        && cell(*board, squares@[j].0 as int, squares@[j].1 as int) == 0,
            decreases 4 - i,
        {
            let (row, col) = squares[i];
            assert(int_pairs(squares@)[i as int] == (row as int, col as int));
            if !Pos::in_range(row, col) {
                return false;
            }
            if board[row as usize][col as usize] != 0 {
                return false;
            }
            i += 1;
        }
        assert forall|j: int| 0 <= j < 4 implies in_bounds(
            #[trigger] new_state.cells()[j].0,
            new_state.cells()[j].1,
        ) && cell(*board, new_state.cells()[j].0, new_state.cells()[j].1) == 0 by {
            assert(int_pairs(squares@)[j] == (squares@[j].0 as int, squares@[j].1 as int));
        }
        self.origin = new_state.origin;
        self.rotation = new_state.rotation;
        true
    }
    /// Moves this piece one row down if it fits there. Returns whether it
    /// moved.
    pub fn soft_drop(&mut self, board: &Grid) -> (r: bool)
        ensures
            r == fits_at(
                *board,
                old(self).tetromino,
                old(self).origin.row() + 1,
                old(self).origin.col(),
                old(self).rotation,
            ),
            r ==> final(self).placed(
                *old(self),
                old(self).origin.row() + 1,
                old(self).origin.col(),
                old(self).rotation,
            ),
            !r ==> *final(self) == *old(self),
    {
        if let Some(new_pos) = self.origin.try_move(0, 1) {
            let cand = ActivePiece {
                tetromino: self.tetromino,
                origin: new_pos,
                rotation: self.rotation,
            };
            return self.validate(&cand, board);
        }
        false
    }

    /// Moves this piece one column left (or right) if it fits there.
    /// Returns whether it moved.
    pub fn shift(&mut self, left: bool, board: &Grid) -> (r: bool)
        ensures
            r == fits_at(
                *board,
                old(self).tetromino,
                old(self).origin.row(),
                old(self).origin.col() + if left { -1int } else { 1int },
                old(self).rotation,
            ),
            r ==> final(self).placed(
                *old(self),
                old(self).origin.row(),
                old(self).origin.col() + if left { -1int } else { 1int },
                old(self).rotation,
            ),
            !r ==> *final(self) == *old(self),
    {
        let dx: i32 = if left { -1 } else { 1 };
        if let Some(new_pos) = self.origin.try_move(dx, 0) {
            let cand = ActivePiece {
                tetromino: self.tetromino,
                origin: new_pos,
                rotation: self.rotation,
            };
            return self.validate(&cand, board);
        }
        false
    }
    /// Turns this piece one step clockwise (or counter-clockwise), at the
    /// first origin among its rotation candidates where it fits. Returns
    /// whether it turned; if it did not, it is unchanged.
    pub fn rotate(&mut self, clockwise: bool, board: &Grid) -> (r: bool)
        ensures
            match first_fit(
                *board,
                old(self).tetromino,
                rotated(old(self).rotation, clockwise),
                rotation_candidates(*old(self), clockwise),
            ) {
                Some(o) => r && final(self).placed(
                    *old(self),
                    o.0,
                    o.1,
                    rotated(old(self).rotation, clockwise),
                ) && fits(*board, final(self).cells()),
                None => !r && *final(self) == *old(self),
            },
    {
        if let Tetromino::O = self.tetromino {
            return false;
        }
        let new_rotation = self.rotation.rotate(clockwise);
        let (row, col) = self.origin.coords();
        let (row, col) = (row as i32, col as i32);
        let shift = basic_offset(self.tetromino, clockwise, new_rotation);
        let base = (row + shift.0, col + shift.1);
        let k = kick_offsets(self.tetromino, self.rotation, clockwise);
        assert(int_pairs(k@)[0] == kicks(self.tetromino, self.rotation, clockwise)[0]);
        assert(int_pairs(k@)[1] == kicks(self.tetromino, self.rotation, clockwise)[1]);
        assert(int_pairs(k@)[2] == kicks(self.tetromino, self.rotation, clockwise)[2]);
        assert(int_pairs(k@)[3] == kicks(self.tetromino, self.rotation, clockwise)[3]);
        let cands: [(i32, i32); 5] = [
            base,
            (base.0 + k[0].0, base.1 + k[0].1),
            (base.0 + k[1].0, base.1 + k[1].1),
            (base.0 + k[2].0, base.1 + k[2].1),
            (base.0 + k[3].0, base.1 + k[3].1),
        ];
        let ghost orig = *self;
        let ghost all = int_pairs(cands@);
        assert(all =~= rotation_candidates(orig, clockwise));
        assert(all.skip(0) =~= all);
        let mut i: usize = 0;
        while i < 5
            invariant
                *self == orig,
                orig == *old(self),
                i <= 5,
                all == int_pairs(cands@),
                all == rotation_candidates(orig, clockwise),
                all.len() == 5,
                new_rotation == rotated(orig.rotation, clockwise),
                first_fit(*board, orig.tetromino, new_rotation, all) == first_fit(
                    *board,
                    orig.tetromino,
                    new_rotation,
                    all.skip(i as int),
                ),
            decreases 5 - i,
        {
            let (r, c) = cands[i];
            let ghost tail = all.skip(i as int);
            assert(tail[0] == (r as int, c as int));
            assert(tail.drop_first() =~= all.skip(i + 1));
            if Pos::in_range(r, c) {
                let cand = ActivePiece {
                    tetromino: self.tetromino,
                    origin: Pos::new(r as usize, c as usize),
                    rotation: new_rotation,
                };
                if self.validate(&cand, board) {
                    assert(cand.cells() == squares(orig.tetromino, r as int, c as int, new_rotation));
                    assert(fits_at(*board, orig.tetromino, tail[0].0, tail[0].1, new_rotation));
                    assert(first_fit(*board, orig.tetromino, new_rotation, tail) == Some(tail[0]));
                    return true;
                }
            }
            i += 1;
        }
        false
    }
}

/// The kick offsets of `kicks`, for a kind other than O.
fn kick_offsets(k: Tetromino, from: State, clockwise: bool) -> (r: [(i32, i32); 4])
    requires
        !(k is O),
    ensures
        int_pairs(r@) == kicks(k, from, clockwise),
{
    let r: [(i32, i32); 4] = if let Tetromino::I = k {
        match (from, clockwise) {
            (State::Up, true) | (State::Left, false) => [(0, -2), (0, 1), (-1, -2), (-2, 1)],
            (State::Right, false) | (State::Down, true) => [(0, 2), (0, -1), (1, 2), (2, -1)],
            (State::Right, true) | (State::Up, false) => [(0, -1), (0, 2), (-2, -1), (1, 2)],
            (State::Down, false) | (State::Left, true) => [(0, 1), (0, -2), (2, 1), (-1, -2)],
        }
    } else {
        match (from, clockwise) {
            (State::Up, true) | (State::Down, false) => [(0, -1), (-1, -1), (2, 0), (2, -1)],
            (State::Right, false) | (State::Right, true) => [(0, 1), (1, 1), (-2, 0), (-2, 1)],
            (State::Down, true) | (State::Left, true) => [(0, 1), (-1, 1), (2, 0), (2, 1)],
            (State::Left, false) | (State::Up, false) => [(0, -1), (1, -1), (-2, 0), (-2, -1)],
        }
    };
    assert(int_pairs(r@) =~= kicks(k, from, clockwise));
    r
}

/// The shift of `basic_shift`.
fn basic_offset(k: Tetromino, clockwise: bool, to: State) -> (r: (i32, i32))
    ensures
        (r.0 as int, r.1 as int) == basic_shift(k, clockwise, to),
{
    if let Tetromino::I = k {
        match (clockwise, to) {
            (true, State::Up) | (false, State::Right) => (-1, 0),
            (true, State::Right) | (false, State::Down) => (0, 1),
            (true, State::Down) | (false, State::Left) => (1, 0),
            (true, State::Left) | (false, State::Up) => (0, -1),
        }
    } else {
        (0, 0)
    }
}

} // verus!
