//! Piece kinds, rotation states and the table of cell offsets.
use vstd::prelude::*;

verus! {

/// One of the seven four-cell pieces.
#[derive(Debug, Clone, Copy, PartialEq, Eq, Structural)]
pub enum Tetromino {
    I,
    O,
    T,
    J,
    L,
    S,
    Z,
}

/// Rotation state of a piece; the four states form a cycle.
#[derive(Debug, Clone, Copy, PartialEq, Eq, Structural)]
pub enum State {
    Up,
    Right,
    Down,
    Left,
}

/// The state one step clockwise (or counter-clockwise) from `s`.
pub open spec fn rotated(s: State, clockwise: bool) -> State {
    if clockwise {
        match s {
            State::Up => State::Right,
            State::Right => State::Down,
            State::Down => State::Left,
            State::Left => State::Up,
        }
    } else {
        match s {
            State::Up => State::Left,
            State::Right => State::Up,
            State::Down => State::Right,
            State::Left => State::Down,
        }
    }
}

/// The byte that marks a cell of the board as occupied by a piece of kind `k`.
pub open spec fn tag_of(k: Tetromino) -> u8 {
    match k {
        Tetromino::I => 1,
        Tetromino::O => 2,
        Tetromino::T => 3,
        Tetromino::J => 4,
        Tetromino::L => 5,
        Tetromino::S => 6,
        Tetromino::Z => 7,
    }
}

/// The four (row offset, column offset) pairs of kind `k` in rotation `r`,
/// relative to the piece's origin. Rows grow downwards.
pub open spec fn offsets(k: Tetromino, r: State) -> Seq<(int, int)> {
    match k {
        Tetromino::I => match r {
            State::Up => seq![(0, -1), (0, 0), (0, 1), (0, 2)],
            State::Right => seq![(-1, 0), (0, 0), (1, 0), (2, 0)],
            State::Down => seq![(0, -2), (0, -1), (0, 0), (0, 1)],
            State::Left => seq![(-2, 0), (-1, 0), (0, 0), (1, 0)],
        },
        Tetromino::O => seq![(-1, 0), (-1, 1), (0, 0), (0, 1)],
        Tetromino::T => match r {
            State::Up => seq![(-1, 0), (0, -1), (0, 0), (0, 1)],
            State::Right => seq![(-1, 0), (0, 0), (0, 1), (1, 0)],
            State::Down => seq![(0, -1), (0, 0), (0, 1), (1, 0)],
            State::Left => seq![(-1, 0), (0, -1), (0, 0), (1, 0)],
        },
        Tetromino::J => match r {
            State::Up => seq![(-1, -1), (0, -1), (0, 0), (0, 1)],
            State::Right => seq![(-1, 0), (-1, 1), (0, 0), (1, 0)],
            State::Down => seq![(0, -1), (0, 0), (0, 1), (1, 1)],
            State::Left => seq![(1, 0), (0, 0), (1, -1), (-1, 0)],
        },
        Tetromino::L => match r {
            State::Up => seq![(-1, 1), (0, -1), (0, 0), (0, 1)],
            State::Right => seq![(-1, 0), (0, 0), (1, 0), (1, 1)],
            State::Down => seq![(0, -1), (0, 0), (0, 1), (1, -1)],
            State::Left => seq![(-1, -1), (-1, 0), (0, 0), (1, 0)],
        },
        Tetromino::S => match r {
            State::Up => seq![(-1, 0), (-1, 1), (0, -1), (0, 0)],
            State::Right => seq![(-1, 0), (0, 0), (0, 1), (1, 1)],
            State::Down => seq![(0, 0), (0, 1), (1, -1), (1, 0)],
            State::Left => seq![(-1, -1), (0, -1), (0, 0), (1, 0)],
        },
        Tetromino::Z => match r {
            State::Up => seq![(-1, -1), (-1, 0), (0, 0), (0, 1)],
            State::Right => seq![(-1, 1), (0, 1), (0, 0), (1, 0)],
            State::Down => seq![(0, -1), (0, 0), (1, 0), (1, 1)],
            State::Left => seq![(-1, 0), (0, 0), (0, -1), (1, -1)],
        },
    }
}

/// Machine pairs read as pairs of mathematical integers.
pub open spec fn int_pairs(s: Seq<(i32, i32)>) -> Seq<(int, int)> {
    s.map_values(|p: (i32, i32)| (p.0 as int, p.1 as int))
}

/// The seven kinds, in the order of their tags.
pub open spec fn all_kinds() -> Seq<Tetromino> {
    seq![
        Tetromino::I,
        Tetromino::O,
        Tetromino::T,
        Tetromino::J,
        Tetromino::L,
        Tetromino::S,
        Tetromino::Z,
    ]
}

impl State {
    /// The state one step clockwise, or counter-clockwise, from this one.
    pub fn rotate(&self, clockwise: bool) -> (r: State)
        ensures
            r == rotated(*self, clockwise),
    {
        if clockwise {
            match self {
                State::Up => State::Right,
                State::Right => State::Down,
                State::Down => State::Left,
                State::Left => State::Up,
            }
        } else {
            match self {
                State::Up => State::Left,
                State::Right => State::Up,
                State::Down => State::Right,
                State::Left => State::Down,
            }
        }
    }
}

impl Tetromino {
    /// The four cell offsets of this kind in the given rotation, as
    /// (row offset, column offset) pairs.
    pub fn shape(&self, rotation: State) -> (r: [(i32, i32); 4])
        ensures
            int_pairs(r@) == offsets(*self, rotation),
    {
        let r: [(i32, i32); 4] = match self {
            Tetromino::I => match rotation {
                State::Up => [(0, -1), (0, 0), (0, 1), (0, 2)],
                State::Right => [(-1, 0), (0, 0), (1, 0), (2, 0)],
                State::Down => [(0, -2), (0, -1), (0, 0), (0, 1)],
                State::Left => [(-2, 0), (-1, 0), (0, 0), (1, 0)],
            },
            Tetromino::O => [(-1, 0), (-1, 1), (0, 0), (0, 1)],
            Tetromino::T => match rotation {
                State::Up => [(-1, 0), (0, -1), (0, 0), (0, 1)],
                State::Right => [(-1, 0), (0, 0), (0, 1), (1, 0)],
                State::Down => [(0, -1), (0, 0), (0, 1), (1, 0)],
                State::Left => [(-1, 0), (0, -1), (0, 0), (1, 0)],
            },
            Tetromino::J => match rotation {
                State::Up => [(-1, -1), (0, -1), (0, 0), (0, 1)],
                State::Right => [(-1, 0), (-1, 1), (0, 0), (1, 0)],
                State::Down => [(0, -1), (0, 0), (0, 1), (1, 1)],
                State::Left => [(1, 0), (0, 0), (1, -1), (-1, 0)],
            },
            Tetromino::L => match rotation {
                State::Up => [(-1, 1), (0, -1), (0, 0), (0, 1)],
                State::Right => [(-1, 0), (0, 0), (1, 0), (1, 1)],
                State::Down => [(0, -1), (0, 0), (0, 1), (1, -1)],
                State::Left => [(-1, -1), (-1, 0), (0, 0), (1, 0)],
            },
            Tetromino::S => match rotation {
                State::Up => [(-1, 0), (-1, 1), (0, -1), (0, 0)],
                State::Right => [(-1, 0), (0, 0), (0, 1), (1, 1)],
                State::Down => [(0, 0), (0, 1), (1, -1), (1, 0)],
                State::Left => [(-1, -1), (0, -1), (0, 0), (1, 0)],
            },
            Tetromino::Z => match rotation {
                State::Up => [(-1, -1), (-1, 0), (0, 0), (0, 1)],
                State::Right => [(-1, 1), (0, 1), (0, 0), (1, 0)],
                State::Down => [(0, -1), (0, 0), (1, 0), (1, 1)],
                State::Left => [(-1, 0), (0, 0), (0, -1), (1, -1)],
            },
        };
        assert(int_pairs(r@) =~= offsets(*self, rotation));
        r
    }

    /// The byte that marks this kind's cells on the board (1 to 7).
    pub fn tag(&self) -> (r: u8)
        ensures
            r == tag_of(*self),
            1 <= r <= 7,
    {
        match self {
            Tetromino::I => 1,
            Tetromino::O => 2,
            Tetromino::T => 3,
            Tetromino::J => 4,
            Tetromino::L => 5,
            Tetromino::S => 6,
            Tetromino::Z => 7,
        }
    }
}

impl From<Tetromino> for u8 {
    fn from(val: Tetromino) -> (r: u8) {
        val.tag()
    }
}

impl vstd::std_specs::convert::FromSpecImpl<Tetromino> for u8 {
    open spec fn obeys_from_spec() -> bool {
        true
    }

    open spec fn from_spec(v: Tetromino) -> u8 {
        tag_of(v)
    }
}

/// Every kind has four distinct cells in every rotation, and the square
/// piece has the same cells whatever its rotation.
pub proof fn lemma_shapes_are_four_distinct_cells(k: Tetromino, r: State)
    ensures
        offsets(k, r).len() == 4,
        forall|i: int, j: int|
            0 <= i < j < 4 ==> #[trigger] offsets(k, r)[i] != #[trigger] offsets(k, r)[j],
        offsets(Tetromino::O, r) == offsets(Tetromino::O, State::Up),
{
}

/// Every offset lies within two cells of the origin.
pub proof fn lemma_offsets_small(k: Tetromino, r: State)
    ensures
        offsets(k, r).len() == 4,
        forall|i: int|
            0 <= i < 4 ==> -2 <= #[trigger] offsets(k, r)[i].0 <= 2 && -2 <= offsets(k, r)[i].1
                <= 2,
{
}

} // verus!
