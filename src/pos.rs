//! Cell coordinates on the playing field.
use vstd::prelude::*;

verus! {

/// Number of rows of the playing field, the hidden buffer rows included.
pub const MAX_ROW: usize = 40;

/// Number of columns of the playing field.
pub const MAX_COL: usize = 10;

/// Whether (row, col) names a cell of the playing field.
pub open spec fn in_bounds(row: int, col: int) -> bool {
    0 <= row < MAX_ROW as int && 0 <= col < MAX_COL as int
}

/// A (row, column) coordinate that always lies on the playing field.
#[derive(Debug, Clone, Copy, PartialEq, Eq, Structural)]
pub struct Pos(usize, usize);

impl Pos {
    #[verifier::type_invariant]
    spec fn on_field(self) -> bool {
        self.0 < MAX_ROW && self.1 < MAX_COL
    }

    /// The row of this coordinate.
    pub closed spec fn row(self) -> int {
        self.0 as int
    }

    /// The column of this coordinate.
    pub closed spec fn col(self) -> int {
        self.1 as int
    }

    /// A coordinate on the field; one off the field cannot be built.
    pub fn new(row: usize, col: usize) -> (r: Pos)
        requires
            row < MAX_ROW,
            col < MAX_COL,
        ensures
            r.row() == row,
            r.col() == col,
    {
        Pos(row, col)
    }

    /// The (row, column) pair of this coordinate.
    pub fn coords(&self) -> (r: (usize, usize))
        ensures
            r.0 == self.row(),
            r.1 == self.col(),
            in_bounds(r.0 as int, r.1 as int),
    {
        proof {
            use_type_invariant(self);
        }
        (self.0, self.1)
    }

    /// The coordinate `x` columns and `y` rows away, if it is on the field.
    pub fn try_move(&self, x: i32, y: i32) -> (r: Option<Pos>)
        ensures
            r is Some <==> in_bounds(self.row() + y, self.col() + x),
            r matches Some(p) ==> p.row() == self.row() + y && p.col() == self.col() + x,
    {
        proof {
            use_type_invariant(self);
        }
        let row: i64 = self.0 as i64 + y as i64;
        let col: i64 = self.1 as i64 + x as i64;
        if row < 0 || row >= MAX_ROW as i64 || col < 0 || col >= MAX_COL as i64 {
            None
        } else {
            Some(Pos(row as usize, col as usize))
        }
    }

    /// Whether (row, col) names a cell of the field.
    pub fn in_range(row: i32, col: i32) -> (r: bool)
        ensures
            r == in_bounds(row as int, col as int),
    {
        row >= 0 && row < MAX_ROW as i32 && col >= 0 && col < MAX_COL as i32
    }
}

} // verus!
