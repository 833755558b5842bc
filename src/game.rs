//! A game session: the field, the falling piece, the randomiser and the
//! queue of upcoming kinds, the held piece, and the counters for score,
//! level, cleared lines, lock delay and gravity.
use vstd::prelude::*;
use crate::bag::{draw, is_full_set, Bag};
use crate::board::{
    after_clear, cell, clear_lines, empty_grid, empty_row, empty_rows, kept, lemma_kept_all_solid,
    lemma_kept_len, lemma_kept_none_solid, lemma_kept_split, rows, solid, solid_count, Grid,
};
use crate::piece::{candidates, first_fit, fits_at, squares, ActivePiece, SPAWN_COL, SPAWN_ROW};
use crate::pos::{in_bounds, MAX_COL, MAX_ROW};
use crate::shape::{
    all_kinds, int_pairs, lemma_offsets_small, rotated, tag_of, State, Tetromino,
};

verus! {

/// Frames a grounded piece waits before it may be locked.
pub const LOCK_DELAY: u8 = 30;

/// The highest level.
pub const MAX_LEVEL: u32 = 15;

/// Gravity is counted in millionths of a cell.
pub const GRAVITY_UNIT: u64 = 1_000_000;

/// The first row of the visible area; a piece locked with a cell in this row
/// or above it ends the game.
pub const TOP_ROW: usize = 20;

/// Number of upcoming kinds shown in the queue.
pub const QUEUE_LEN: usize = 4;

/// The largest value a `u32` counter reaches; additions stop there.
pub open spec fn sat(x: int) -> int {
    if x > u32::MAX as int {
        u32::MAX as int
    } else {
        x
    }
}

/// Points for clearing `n` lines at once, before the level multiplier.
pub open spec fn award(n: int) -> int {
    if n == 1 {
        100
    } else if n == 2 {
        300
    } else if n == 3 {
        500
    } else if n == 4 {
        800
    } else {
        0
    }
}

/// Whether any of `cells` lies in the top visible row or above it.
pub open spec fn reaches_top(cells: Seq<(int, int)>) -> bool {
    exists|i: int| 0 <= i < cells.len() && #[trigger] cells[i].0 <= TOP_ROW as int
}

/// Whether every one of `cells` lies on the field.
pub open spec fn on_field(cells: Seq<(int, int)>) -> bool {
    forall|i: int| 0 <= i < cells.len() ==> in_bounds(#[trigger] cells[i].0, cells[i].1)
}

/// The field `rs` with every one of `cells` set to `tag`.
pub open spec fn stamp(rs: Seq<Seq<u8>>, cells: Seq<(int, int)>, tag: u8) -> Seq<Seq<u8>> {
    Seq::new(
        rs.len(),
        |r: int|
            Seq::new(
                rs[r].len(),
                |c: int|
                    if cells.contains((r, c)) {
                        tag
                    } else {
                        rs[r][c]
                    },
            ),
    )
}

/// Whether `p` is a fresh piece of kind `k` at the spawn position.
pub open spec fn spawned(p: ActivePiece, k: Tetromino) -> bool {
    &&& p.tetromino == k
    &&& p.origin.row() == SPAWN_ROW
    &&& p.origin.col() == SPAWN_COL
    &&& p.rotation == State::Up
}

/// Whether a piece of kind `k` in rotation `rot` at (row, col) can make
/// none of the four basic moves: shift left, shift right, turn clockwise,
/// turn counter-clockwise.
pub open spec fn immobile(b: Grid, k: Tetromino, row: int, col: int, rot: State) -> bool {
    &&& !fits_at(b, k, row, col - 1, rot)
    &&& !fits_at(b, k, row, col + 1, rot)
    &&& first_fit(b, k, rotated(rot, true), candidates(k, row, col, rot, true)) is None
    &&& first_fit(b, k, rotated(rot, false), candidates(k, row, col, rot, false)) is None
}

/// How many rows a piece of kind `k` in rotation `rot` at (row, col) can
/// fall before it rests.
pub open spec fn drop_distance(b: Grid, k: Tetromino, row: int, col: int, rot: State) -> nat
    decreases MAX_ROW - row,
{
    if fits_at(b, k, row + 1, col, rot) {
        1 + drop_distance(b, k, row + 1, col, rot)
    } else {
        0
    }
}

/// Cells per frame that gravity moves a piece at `level`, in millionths,
/// following the curve (0.8 - (level - 1) * 0.007) ^ (level - 1) seconds
/// per cell at sixty frames a second. Levels above the highest fall as the
/// highest.
pub open spec fn gravity_rate(level: int) -> int {
    if level <= 0 {
        13450
    } else if level == 1 {
        16667
    } else if level == 2 {
        21017
    } else if level == 3 {
        26978
    } else if level == 4 {
        35256
    } else if level == 5 {
        46922
    } else if level == 6 {
        63612
    } else if level == 7 {
        87869
    } else if level == 8 {
        123700
    } else if level == 9 {
        177527
    } else if level == 10 {
        259801
    } else if level == 11 {
        387811
    } else if level == 12 {
        590646
    } else if level == 13 {
        918105
    } else if level == 14 {
        1456960
    } else {
        2361180
    }
}

/// A game session.
pub struct Tetris {
    board: Grid,
    active: ActivePiece,
    bag: Bag,
    held: (Option<Tetromino>, bool),
    queue: Vec<Tetromino>,
    delay_count: u8,
    gravity_count: u64,
    score: u32,
    level: u32,
    lines: u32,
    is_game_over: bool,
}

impl Tetris {
    /// The field, without the falling piece.
    pub closed spec fn grid(&self) -> Grid {
        self.board
    }

    /// The falling piece.
    pub closed spec fn piece(&self) -> ActivePiece {
        self.active
    }

    /// The held kind, if any.
    pub closed spec fn held_kind(&self) -> Option<Tetromino> {
        self.held.0
    }

    /// Whether the held kind may be swapped in (a piece has locked since
    /// the last hold).
    pub closed spec fn swap_ok(&self) -> bool {
        self.held.1
    }

    /// The upcoming kinds, the next one first.
    pub closed spec fn upcoming(&self) -> Seq<Tetromino> {
        self.queue@
    }

    /// What is left in the randomiser.
    pub closed spec fn bag_items(&self) -> Seq<Tetromino> {
        self.bag@
    }

    /// Frames counted towards the lock delay.
    pub closed spec fn delay(&self) -> u8 {
        self.delay_count
    }

    /// Gravity accumulated towards the next drop, in millionths of a cell.
    pub closed spec fn gravity(&self) -> u64 {
        self.gravity_count
    }

    /// The score.
    pub closed spec fn score_spec(&self) -> u32 {
        self.score
    }

    /// The level.
    pub closed spec fn level_spec(&self) -> u32 {
        self.level
    }

    /// The number of cleared lines.
    pub closed spec fn lines_spec(&self) -> u32 {
        self.lines
    }

    /// Whether the game is over.
    pub closed spec fn over_spec(&self) -> bool {
        self.is_game_over
    }

    /// The session's invariant: four upcoming kinds, a well-formed bag, a
    /// falling piece on the field and less than one cell of gravity stored.
    pub closed spec fn wf(&self) -> bool {
        &&& self.queue@.len() == QUEUE_LEN
        &&& self.bag.wf()
        &&& on_field(self.active.cells())
        &&& self.gravity_count < GRAVITY_UNIT
    }

    /// The (row, col, rotation) of the falling piece.
    pub open spec fn placement(&self) -> (int, int, State) {
        (self.piece().origin.row(), self.piece().origin.col(), self.piece().rotation)
    }
}

/// Whether `new` has the same field, held piece, queue, randomiser,
/// gravity, level, line count and game-over flag as `old`.
pub open spec fn same_but_score(old: Tetris, new: Tetris) -> bool {
    &&& new.grid() == old.grid()
    &&& new.held_kind() == old.held_kind()
    &&& new.swap_ok() == old.swap_ok()
    &&& new.upcoming() == old.upcoming()
    &&& new.bag_items() == old.bag_items()
    &&& new.gravity() == old.gravity()
    &&& new.level_spec() == old.level_spec()
    &&& new.lines_spec() == old.lines_spec()
    &&& new.over_spec() == old.over_spec()
}

/// Whether `new` agrees with `old` in all but the falling piece and the
/// lock-delay count.
pub open spec fn same_but_piece(old: Tetris, new: Tetris) -> bool {
    &&& same_but_score(old, new)
    &&& new.score_spec() == old.score_spec()
}

/// Whether `new` agrees with `old` in everything.
pub open spec fn unchanged(old: Tetris, new: Tetris) -> bool {
    &&& same_but_piece(old, new)
    &&& new.piece() == old.piece()
    &&& new.delay() == old.delay()
}

/// Whether `new` follows from `old` by taking the next kind from the queue:
/// the queue moves up by one and its last place is filled by a draw from
/// the randomiser.
pub open spec fn advances_queue(old: Tetris, new: Tetris) -> bool {
    &&& new.upcoming() == old.upcoming().drop_first().push(new.upcoming().last())
    &&& draw(old.bag_items(), new.upcoming().last(), new.bag_items())
}

/// Whether `new` follows from `old` by locking the falling piece's kind
/// into `cells`: the cells take its tag, the game ends if one of them
/// reaches the top visible row or above, the held piece may be swapped
/// again, the next kind from the queue spawns, and `bonus` points are
/// added. With `clear`, the solid rows are then removed, the line count
/// grows by their number and the score by the level times their award.
pub open spec fn locks(old: Tetris, cells: Seq<(int, int)>, bonus: int, clear: bool, new: Tetris) -> bool {
    let stamped = stamp(rows(old.grid()), cells, tag_of(old.piece().tetromino));
    let n = if clear {
        solid_count(stamped)
    } else {
        0
    };
    &&& rows(new.grid()) == (if clear {
        after_clear(stamped)
    } else {
        stamped
    })
    &&& new.score_spec() == sat(old.score_spec() + bonus + old.level_spec() * award(n))
    &&& new.lines_spec() == sat(old.lines_spec() + n)
    &&& new.level_spec() == old.level_spec()
    &&& new.over_spec() == (old.over_spec() || reaches_top(cells))
    &&& new.held_kind() == old.held_kind()
    &&& new.swap_ok()
    &&& spawned(new.piece(), old.upcoming()[0])
    &&& advances_queue(old, new)
    &&& new.delay() == old.delay()
    &&& new.gravity() == old.gravity()
}

/// Whether `new` follows from `old` by removing the solid rows of the
/// field and scoring them.
pub open spec fn clears(old: Tetris, new: Tetris) -> bool {
    let n = solid_count(rows(old.grid()));
    &&& rows(new.grid()) == after_clear(rows(old.grid()))
    &&& new.score_spec() == sat(old.score_spec() + old.level_spec() * award(n))
    &&& new.lines_spec() == sat(old.lines_spec() + n)
    &&& new.piece() == old.piece()
    &&& new.held_kind() == old.held_kind()
    &&& new.swap_ok() == old.swap_ok()
    &&& new.upcoming() == old.upcoming()
    &&& new.bag_items() == old.bag_items()
    &&& new.delay() == old.delay()
    &&& new.gravity() == old.gravity()
    &&& new.level_spec() == old.level_spec()
    &&& new.over_spec() == old.over_spec()
}

/// Where a piece of kind `k` in rotation `rot` at (row, col) stands after
/// an attempt to shift it left (or right): moved if it fits there.
pub open spec fn shift_target(b: Grid, k: Tetromino, row: int, col: int, rot: State, left: bool) -> (
    int,
    int,
    State,
) {
    let c = if left {
        col - 1
    } else {
        col + 1
    };
    if fits_at(b, k, row, c, rot) {
        (row, c, rot)
    } else {
        (row, col, rot)
    }
}

/// Where a piece of kind `k` in rotation `rot` at (row, col) stands after
/// an attempt to turn it: at the first rotation candidate where it fits,
/// or where it was.
pub open spec fn rotate_target(
    b: Grid,
    k: Tetromino,
    row: int,
    col: int,
    rot: State,
    clockwise: bool,
) -> (int, int, State) {
    match first_fit(b, k, rotated(rot, clockwise), candidates(k, row, col, rot, clockwise)) {
        Some(o) => (o.0, o.1, rotated(rot, clockwise)),
        None => (row, col, rot),
    }
}

/// Whether `new` is `old` with the falling piece standing at `to`.
pub open spec fn moved_to(old: Tetris, to: (int, int, State), new: Tetris) -> bool {
    &&& same_but_piece(old, new)
    &&& new.piece().placed(old.piece(), to.0, to.1, to.2)
}

/// Whether `new` (with result `r`) follows from `old` by the lock-delay
/// check: below the delay the frame is counted; past it, a piece that can
/// make none of the four basic moves is locked.
pub open spec fn lock_check(old: Tetris, r: bool, new: Tetris) -> bool {
    let (row, col, rot) = old.placement();
    if old.delay() < LOCK_DELAY {
        &&& !r
        &&& same_but_piece(old, new)
        &&& new.piece() == old.piece()
        &&& new.delay() == old.delay() + 1
    } else if immobile(old.grid(), old.piece().tetromino, row, col, rot) {
        &&& r
        &&& locks(old, old.piece().cells(), 0, false, new)
    } else {
        &&& !r
        &&& unchanged(old, new)
    }
}

/// Whether `new` follows from `old` by moving the falling piece to `to`
/// and then the lock-delay check, clearing lines if the piece locked.
pub open spec fn settles(old: Tetris, to: (int, int, State), new: Tetris) -> bool {
    let k = old.piece().tetromino;
    if old.delay() < LOCK_DELAY {
        &&& moved_to(old, to, new)
        &&& new.delay() == old.delay() + 1
    } else if immobile(old.grid(), k, to.0, to.1, to.2) {
        locks(old, squares(k, to.0, to.1, to.2), 0, true, new)
    } else {
        &&& moved_to(old, to, new)
        &&& new.delay() == old.delay()
    }
}

/// Whether `new` follows from `old` by a hard drop: the piece falls as far
/// as it can, two points for each row, then locks, and the solid rows are
/// cleared.
pub open spec fn hard_dropped(old: Tetris, new: Tetris) -> bool {
    let (row, col, rot) = old.placement();
    let k = old.piece().tetromino;
    let d = drop_distance(old.grid(), k, row, col, rot);
    locks(old, squares(k, row + d, col, rot), 2 * d as int, true, new)
}

/// Whether `new` follows from `old` by the hold rule: with a held kind that
/// may be swapped in, that kind spawns and the falling kind is held; with
/// nothing held, the falling kind is held and the next kind from the queue
/// spawns; otherwise nothing changes. A hold bars the next swap until a
/// piece locks.
pub open spec fn holds(old: Tetris, new: Tetris) -> bool {
    if old.held_kind() is Some && old.swap_ok() {
        &&& new.held_kind() == Some(old.piece().tetromino)
        &&& !new.swap_ok()
        &&& spawned(new.piece(), old.held_kind()->Some_0)
        &&& new.grid() == old.grid()
        &&& new.upcoming() == old.upcoming()
        &&& new.bag_items() == old.bag_items()
        &&& new.gravity() == old.gravity()
        &&& new.delay() == old.delay()
        &&& new.score_spec() == old.score_spec()
        &&& new.level_spec() == old.level_spec()
        &&& new.lines_spec() == old.lines_spec()
        &&& new.over_spec() == old.over_spec()
    } else if old.held_kind() is None {
        &&& new.held_kind() == Some(old.piece().tetromino)
        &&& !new.swap_ok()
        &&& spawned(new.piece(), old.upcoming()[0])
        &&& advances_queue(old, new)
        &&& new.grid() == old.grid()
        &&& new.gravity() == old.gravity()
        &&& new.delay() == old.delay()
        &&& new.score_spec() == old.score_spec()
        &&& new.level_spec() == old.level_spec()
        &&& new.lines_spec() == old.lines_spec()
        &&& new.over_spec() == old.over_spec()
    } else {
        unchanged(old, new)
    }
}

/// Whether `new` follows from `old` by one cell of gravity: the piece
/// falls a row, which restarts the lock delay, or else the lock-delay
/// check runs.
pub open spec fn gravity_step(old: Tetris, new: Tetris) -> bool {
    let (row, col, rot) = old.placement();
    let k = old.piece().tetromino;
    if fits_at(old.grid(), k, row + 1, col, rot) {
        &&& moved_to(old, (row + 1, col, rot), new)
        &&& new.delay() == 0
    } else {
        lock_check(
            old,
            old.delay() >= LOCK_DELAY && immobile(old.grid(), k, row, col, rot),
            new,
        )
    }
}

/// Whether `new` is `old` at the start of a frame: gravity has gained the
/// level's rate, less the whole cells, and the frame is counted towards the
/// lock delay (the count stops at its largest value).
pub open spec fn frame_start(old: Tetris, new: Tetris) -> bool {
    let acc = old.gravity() + gravity_rate(old.level_spec() as int);
    &&& new.grid() == old.grid()
    &&& new.held_kind() == old.held_kind()
    &&& new.swap_ok() == old.swap_ok()
    &&& new.upcoming() == old.upcoming()
    &&& new.bag_items() == old.bag_items()
    &&& new.score_spec() == old.score_spec()
    &&& new.level_spec() == old.level_spec()
    &&& new.lines_spec() == old.lines_spec()
    &&& new.over_spec() == old.over_spec()
    &&& new.piece() == old.piece()
    &&& new.gravity() == acc % GRAVITY_UNIT as int
    &&& new.delay() == if old.delay() < u8::MAX {
        old.delay() + 1
    } else {
        old.delay() as int
    }
}

/// Whether `new` is `old` with nothing but the level changed.
pub open spec fn level_set(old: Tetris, new: Tetris) -> bool {
    &&& new.grid() == old.grid()
    &&& new.piece() == old.piece()
    &&& new.held_kind() == old.held_kind()
    &&& new.swap_ok() == old.swap_ok()
    &&& new.upcoming() == old.upcoming()
    &&& new.bag_items() == old.bag_items()
    &&& new.delay() == old.delay()
    &&& new.gravity() == old.gravity()
    &&& new.score_spec() == old.score_spec()
    &&& new.lines_spec() == old.lines_spec()
    &&& new.over_spec() == old.over_spec()
}

/// Whether each state of `trace` follows from the one before it by one
/// cell of gravity.
pub open spec fn gravity_run(trace: Seq<Tetris>) -> bool {
    forall|i: int| 0 <= i < trace.len() - 1 ==> gravity_step(#[trigger] trace[i], trace[i + 1])
}

impl Tetris {
    /// A session on `provided_board` (or an empty field) whose first piece
    /// is `active_piece` (or the first kind drawn), with the next four draws
    /// queued, nothing held, and every counter at zero.
    pub fn new(provided_board: Option<Grid>, active_piece: Option<Tetromino>) -> (r: Tetris)
        ensures
            r.wf(),
            r.upcoming().len() == QUEUE_LEN,
            match provided_board {
                Some(b) => r.grid() == b,
                None => rows(r.grid()) == empty_rows(MAX_ROW as nat),
            },
            match active_piece {
                Some(t) => {
                    &&& spawned(r.piece(), t)
                    &&& is_full_set(r.bag_items() + r.upcoming().reverse())
                },
                None => {
                    &&& spawned(r.piece(), r.piece().tetromino)
                    &&& is_full_set(r.bag_items() + r.upcoming().reverse() + seq![r.piece().tetromino])
                },
            },
            r.held_kind() is None,
            !r.swap_ok(),
            r.score_spec() == 0,
            r.level_spec() == 0,
            r.lines_spec() == 0,
            !r.over_spec(),
            r.delay() == 0,
            r.gravity() == 0,
    {
        let board = match provided_board {
            Some(b) => b,
            None => empty_grid(),
        };
        let mut bag = Bag::new();
        let ghost full = bag@;
        proof {
            broadcast use vstd::seq_lib::group_to_multiset_ensures;

            assert(all_kinds().to_multiset().len() == 7);
            assert(full.len() == 7);
        }
        let ghost mut first: Seq<Tetromino> = seq![];
        let active = match active_piece {
            Some(t) => ActivePiece::new(t),
            None => {
                let t = bag.next();
                proof {
                    first = seq![t];
                    assert(bag@ + first =~= full);
                }
                ActivePiece::new(t)
            },
        };
        proof {
            assert(bag@ + first =~= full);
        }
        let mut queue: Vec<Tetromino> = Vec::new();
        while queue.len() < QUEUE_LEN
            invariant
                bag.wf(),
                queue@.len() <= QUEUE_LEN,
                first.len() <= 1,
                bag@ + queue@.reverse() + first == full,
                full.len() == 7,
            decreases QUEUE_LEN - queue@.len(),
        {
            let ghost before = bag@;
            let ghost q = queue@;
            assert((bag@ + queue@.reverse() + first).len() == 7);
            let t = bag.next();
            queue.push(t);
            assert(queue@.reverse() =~= seq![t] + q.reverse());
            assert(bag@ + queue@.reverse() + first =~= before + q.reverse() + first);
        }
        proof {
            lemma_spawn_on_field(active);
        }
        Tetris {
            board,
            active,
            bag,
            held: (None, false),
            queue,
            delay_count: 0,
            gravity_count: 0,
            score: 0,
            level: 0,
            lines: 0,
            is_game_over: false,
        }
    }

    /// The field, without the falling piece.
    pub fn get_board(&self) -> (r: Grid)
        ensures
            r == self.grid(),
    {
        self.board
    }

    /// The falling piece.
    pub fn get_active(&self) -> (r: ActivePiece)
        ensures
            r == self.piece(),
    {
        self.active
    }

    /// The (row, column) of each cell of the falling piece.
    pub fn get_squares(&self) -> (r: [(i32, i32); 4])
        ensures
            int_pairs(r@) == self.piece().cells(),
    {
        self.active.get_squares()
    }

    /// The held kind, if any, and whether it may be swapped in.
    pub fn get_held(&self) -> (r: (Option<Tetromino>, bool))
        ensures
            r == (self.held_kind(), self.swap_ok()),
    {
        self.held
    }

    /// The upcoming kinds, the next one first.
    pub fn get_queue(&self) -> (r: Vec<Tetromino>)
        ensures
            r@ == self.upcoming(),
    {
        self.queue.clone()
    }

    /// Frames counted towards the lock delay.
    pub fn get_delay(&self) -> (r: u8)
        ensures
            r == self.delay(),
    {
        self.delay_count
    }

    /// The score.
    pub fn score(&self) -> (r: u32)
        ensures
            r == self.score_spec(),
    {
        self.score
    }

    /// The level.
    pub fn level(&self) -> (r: u32)
        ensures
            r == self.level_spec(),
    {
        self.level
    }

    /// The number of cleared lines.
    pub fn lines(&self) -> (r: u32)
        ensures
            r == self.lines_spec(),
    {
        self.lines
    }

    /// Whether the game is over.
    pub fn is_game_over(&self) -> (r: bool)
        ensures
            r == self.over_spec(),
    {
        self.is_game_over
    }

    /// Takes the next kind from the queue and refills the queue's last
    /// place from the randomiser.
    fn next_piece(&mut self) -> (r: Tetromino)
        requires
            old(self).wf(),
        ensures
            r == old(self).upcoming()[0],
            advances_queue(*old(self), *final(self)),
            final(self).bag.wf(),
            final(self).queue@.len() == QUEUE_LEN,
            final(self).board == old(self).board,
            final(self).active == old(self).active,
            final(self).held == old(self).held,
            final(self).delay_count == old(self).delay_count,
            final(self).gravity_count == old(self).gravity_count,
            final(self).score == old(self).score,
            final(self).level == old(self).level,
            final(self).lines == old(self).lines,
            final(self).is_game_over == old(self).is_game_over,
    {
        let popped = self.queue.remove(0);
        let t = self.bag.next();
        self.queue.push(t);
        assert(self.queue@ =~= old(self).queue@.drop_first().push(t));
        popped
    }

    /// Writes the falling piece's cells into the field, ends the game if
    /// one of them reaches the top visible row or above, spawns the next
    /// kind and lets the held piece be swapped again.
    fn lock(&mut self)
        requires
            old(self).wf(),
        ensures
            final(self).wf(),
            locks(*old(self), old(self).piece().cells(), 0, false, *final(self)),
    {
        let ghost orig = *self;
        let squares = self.active.get_squares();
        let tag = self.active.tetromino.tag();
        let ghost cells = self.active.cells();
        proof {
            assert(cells.take(0) =~= Seq::<(int, int)>::empty());
            assert(rows(self.board) =~= stamp(rows(orig.board), cells.take(0), tag)) by {
                assert forall|r: int| 0 <= r < MAX_ROW implies #[trigger] rows(self.board)[r]
                    =~= stamp(rows(orig.board), cells.take(0), tag)[r] by {}
            }
        }
        let mut i: usize = 0;
        while i < 4
            invariant
                0 <= i <= 4,
                int_pairs(squares@) == cells,
                cells == orig.active.cells(),
                cells.len() == 4,
                on_field(cells),
                tag == tag_of(orig.active.tetromino),
                rows(self.board) == stamp(rows(orig.board), cells.take(i as int), tag),
                self.is_game_over == (orig.is_game_over || reaches_top(cells.take(i as int))),
                self.active == orig.active,
                self.queue == orig.queue,
                self.bag == orig.bag,
                self.held == orig.held,
                self.delay_count == orig.delay_count,
                self.gravity_count == orig.gravity_count,
                self.score == orig.score,
                self.level == orig.level,
                self.lines == orig.lines,
            decreases 4 - i,
        {
            let (row, col) = squares[i];
            assert(cells[i as int] == (row as int, col as int));
            assert(in_bounds(cells[i as int].0, cells[i as int].1));
            let ghost before = rows(self.board);
            let ghost over_before = self.is_game_over;
            self.is_game_over = self.is_game_over || row <= 20;
            let ghost board_before = self.board;
            let mut line = self.board[row as usize];
            line[col as usize] = tag;
            self.board[row as usize] = line;
            proof {
                assert(line@ =~= board_before@[row as int]@.update(col as int, tag));
                assert(self.board@ =~= board_before@.update(row as int, line));
                assert(rows(self.board) =~= before.update(
                    row as int,
                    before[row as int].update(col as int, tag),
                ));
                let t0 = cells.take(i as int);
                let t1 = cells.take(i + 1);
                assert(t1 =~= t0.push(cells[i as int]));
                assert forall|x: (int, int)| #[trigger] t1.contains(x) <==> (t0.contains(x) || x
                    == cells[i as int]) by {
                    if t1.contains(x) {
                        let j = choose|j: int| 0 <= j < t1.len() && t1[j] == x;
                        if j < i {
                            assert(t0[j] == x);
                        }
                    }
                    if t0.contains(x) {
                        let j = choose|j: int| 0 <= j < t0.len() && t0[j] == x;
                        assert(t1[j] == x);
                    }
                    if x == cells[i as int] {
                        assert(t1[i as int] == x);
                    }
                }
                assert forall|r: int| 0 <= r < MAX_ROW implies #[trigger] rows(self.board)[r]
                    =~= stamp(rows(orig.board), t1, tag)[r] by {
                    assert forall|c: int| 0 <= c < MAX_COL implies #[trigger] rows(self.board)[r][c]
                        == stamp(rows(orig.board), t1, tag)[r][c] by {
                        assert(t1.contains((r, c)) <==> (t0.contains((r, c)) || (r, c)
                            == cells[i as int]));
                    }
                }
                assert(rows(self.board) =~= stamp(rows(orig.board), t1, tag));
                assert(reaches_top(t1) == (reaches_top(t0) || row <= 20)) by {
                    if reaches_top(t1) {
                        let j = choose|j: int| 0 <= j < t1.len() && #[trigger] t1[j].0 <= TOP_ROW as int;
                        if j < i {
                            assert(t0[j].0 <= TOP_ROW as int);
                        }
                    }
                    if reaches_top(t0) {
                        let j = choose|j: int| 0 <= j < t0.len() && #[trigger] t0[j].0 <= TOP_ROW as int;
                        assert(t1[j].0 <= TOP_ROW as int);
                    }
                    if row <= 20 {
                        assert(t1[i as int].0 <= TOP_ROW as int);
                    }
                }
            }
            i += 1;
        }
        assert(cells.take(4) =~= cells);
        let next = self.next_piece();
        self.active = ActivePiece::new(next);
        self.held.1 = true;
        proof {
            lemma_spawn_on_field(self.active);
        }
    }

    /// The lock-delay check: below the delay, counts the frame; past it,
    /// locks the piece if, tried on a copy, it can neither shift left nor
    /// right nor turn either way. Returns whether it locked.
    fn try_lock(&mut self) -> (r: bool)
        requires
            old(self).wf(),
        ensures
            final(self).wf(),
            lock_check(*old(self), r, *final(self)),
    {
        if self.delay_count < LOCK_DELAY {
            self.delay_count += 1;
            return false;
        }
        let mut scratch = self.active;
        let mut can_move = scratch.shift(true, &self.board);
        if !can_move {
            can_move = scratch.shift(false, &self.board);
        }
        if !can_move {
            can_move = scratch.rotate(true, &self.board);
        }
        if !can_move {
            can_move = scratch.rotate(false, &self.board);
        }
        if !can_move {
            self.lock();
            true
        } else {
            false
        }
    }

    /// Counts one point and moves the piece one row down; if it cannot
    /// move, locks it at once.
    pub fn soft_drop(&mut self)
        requires
            old(self).wf(),
        ensures
            final(self).upcoming().len() == QUEUE_LEN,
            old(self).over_spec() ==> final(self).over_spec(),
            final(self).wf(),
            ({
                let (row, col, rot) = old(self).placement();
                let k = old(self).piece().tetromino;
                if fits_at(old(self).grid(), k, row + 1, col, rot) {
                    &&& same_but_score(*old(self), *final(self))
                    &&& final(self).score_spec() == sat(old(self).score_spec() + 1)
                    &&& final(self).piece().placed(old(self).piece(), row + 1, col, rot)
                    &&& final(self).delay() == 0
                } else {
                    locks(*old(self), old(self).piece().cells(), 1, false, *final(self))
                }
            }),
    {
        self.score = if self.score < u32::MAX {
            self.score + 1
        } else {
            u32::MAX
        };
        if self.active.soft_drop(&self.board) {
            self.delay_count = 0;
        } else {
            self.lock();
        }
    }

    /// Drops the piece as far as it falls, two points for each row, then
    /// locks it and clears the solid rows.
    pub fn hard_drop(&mut self)
        requires
            old(self).wf(),
        ensures
            final(self).upcoming().len() == QUEUE_LEN,
            old(self).over_spec() ==> final(self).over_spec(),
            final(self).wf(),
            hard_dropped(*old(self), *final(self)),
    {
        let ghost orig = *self;
        let ghost (row, col, rot) = orig.placement();
        let ghost k = orig.active.tetromino;
        let ghost mut n: int = 0;
        loop
            invariant
                self.wf(),
                k == orig.active.tetromino,
                (row, col, rot) == orig.placement(),
                0 <= n,
                same_but_score(orig, *self),
                self.active.placed(orig.active, row + n, col, rot),
                self.delay_count == orig.delay_count,
                self.score == sat(orig.score + 2 * n),
                drop_distance(orig.board, k, row, col, rot) == n + drop_distance(
                    orig.board,
                    k,
                    row + n,
                    col,
                    rot,
                ),
            ensures
                !fits_at(orig.board, k, row + n + 1, col, rot),
            decreases MAX_ROW - self.active.origin.row(),
        {
            if !self.active.soft_drop(&self.board) {
                break;
            }
            assert(fits_at(orig.board, k, row + n + 1, col, rot));
            assert(drop_distance(orig.board, k, row + n, col, rot) == 1 + drop_distance(
                orig.board,
                k,
                row + n + 1,
                col,
                rot,
            ));
            self.score = if self.score < u32::MAX - 1 {
                self.score + 2
            } else {
                u32::MAX
            };
            proof {
                n = n + 1;
            }
        }
        proof {
            assert(self.active.cells() == squares(k, row + n, col, rot));
        }
        let ghost dropped = *self;
        self.lock();
        let ghost locked = *self;
        self.try_clear();
        proof {
            lemma_lock_then_clear(dropped, dropped.active.cells(), 0, locked, *self);
            lemma_sat_add(orig.score + 2 * n, orig.level * award(
                solid_count(stamp(rows(orig.board), dropped.active.cells(), tag_of(k))),
            ));
        }
    }

    /// Shifts the piece one column left (or right) if it fits there, then
    /// runs the lock-delay check, clearing lines if the piece locked.
    pub fn shift(&mut self, left: bool)
        requires
            old(self).wf(),
        ensures
            final(self).upcoming().len() == QUEUE_LEN,
            old(self).over_spec() ==> final(self).over_spec(),
            final(self).wf(),
            ({
                let (row, col, rot) = old(self).placement();
                let k = old(self).piece().tetromino;
                settles(*old(self), shift_target(old(self).grid(), k, row, col, rot, left), *final(self))
            }),
    {
        self.active.shift(left, &self.board);
        let ghost mid = *self;
        if self.try_lock() {
            let ghost locked = *self;
            self.try_clear();
            proof {
                lemma_lock_then_clear(mid, mid.active.cells(), 0, locked, *self);
            }
        }
    }

    /// Turns the piece one step clockwise (or counter-clockwise) at the
    /// first rotation candidate where it fits, then runs the lock-delay
    /// check, clearing lines if the piece locked.
    pub fn rotate(&mut self, clockwise: bool)
        requires
            old(self).wf(),
        ensures
            final(self).upcoming().len() == QUEUE_LEN,
            old(self).over_spec() ==> final(self).over_spec(),
            final(self).wf(),
            ({
                let (row, col, rot) = old(self).placement();
                let k = old(self).piece().tetromino;
                settles(
                    *old(self),
                    rotate_target(old(self).grid(), k, row, col, rot, clockwise),
                    *final(self),
                )
            }),
    {
        self.active.rotate(clockwise, &self.board);
        let ghost mid = *self;
        if self.try_lock() {
            let ghost locked = *self;
            self.try_clear();
            proof {
                lemma_lock_then_clear(mid, mid.active.cells(), 0, locked, *self);
            }
        }
    }

    /// Sets the piece aside. With nothing held, the piece's kind is held
    /// and the next kind from the queue spawns. With a held kind that may be
    /// swapped, the two change places and the held one spawns. Either way
    /// the held kind may not be swapped again until a piece locks; until
    /// then this does nothing.
    pub fn hold(&mut self)
        requires
            old(self).wf(),
        ensures
            final(self).upcoming().len() == QUEUE_LEN,
            old(self).over_spec() ==> final(self).over_spec(),
            final(self).wf(),
            holds(*old(self), *final(self)),
    {
        if let (Some(tetromino), true) = self.held {
            self.held = (Some(self.active.tetromino), false);
            self.active = ActivePiece::new(tetromino);
            proof {
                lemma_spawn_on_field(self.active);
            }
        } else if self.held.0.is_none() {
            let next = self.next_piece();
            self.held = (Some(self.active.tetromino), false);
            self.active = ActivePiece::new(next);
            proof {
                lemma_spawn_on_field(self.active);
            }
        }
    }

    /// Sets the level, at most the highest level.
    pub fn set_level(&mut self, level: u32)
        requires
            old(self).wf(),
        ensures
            final(self).upcoming().len() == QUEUE_LEN,
            final(self).level_spec() == if level >= MAX_LEVEL {
                MAX_LEVEL
            } else {
                level
            },
            level_set(*old(self), *final(self)),
            final(self).wf(),
            old(self).over_spec() ==> final(self).over_spec(),
    {
        if level >= MAX_LEVEL {
            self.level = MAX_LEVEL;
        } else {
            self.level = level;
        }
    }

    /// One cell of gravity: the piece falls a row, or the lock-delay check
    /// runs.
    fn gravity_step(&mut self)
        requires
            old(self).wf(),
        ensures
            final(self).wf(),
            gravity_step(*old(self), *final(self)),
    {
        if self.active.soft_drop(&self.board) {
            self.delay_count = 0;
        } else {
            self.try_lock();
        }
    }

    /// Advances the game by one frame: gravity gains the level's rate, the
    /// frame counts towards the lock delay, and for each whole cell of
    /// gravity the piece falls a row or, if it cannot, the lock-delay check
    /// runs.
    pub fn frame_advance(&mut self)
        requires
            old(self).wf(),
        ensures
            final(self).upcoming().len() == QUEUE_LEN,
            old(self).over_spec() ==> final(self).over_spec(),
            final(self).wf(),
            exists|trace: Seq<Tetris>|
                {
                    &&& trace.len() == (old(self).gravity() + gravity_rate(
                        old(self).level_spec() as int,
                    )) / GRAVITY_UNIT as int + 1
                    &&& frame_start(*old(self), trace[0])
                    &&& gravity_run(trace)
                    &&& trace.last() == *final(self)
                },
    {
        let rate = gravity_per_frame(self.level);
        self.gravity_count = self.gravity_count + rate;
        if self.delay_count < u8::MAX {
            self.delay_count = self.delay_count + 1;
        }
        let steps = self.gravity_count / GRAVITY_UNIT;
        self.gravity_count = self.gravity_count % GRAVITY_UNIT;
        let ghost mut trace = seq![*self];
        let mut i: u64 = 0;
        while i < steps
            invariant
                self.wf(),
                i <= steps,
                trace.len() == i + 1,
                frame_start(*old(self), trace[0]),
                gravity_run(trace),
                trace.last() == *self,
                old(self).is_game_over ==> self.is_game_over,
            decreases steps - i,
        {
            let ghost before = trace;
            self.gravity_step();
            proof {
                trace = trace.push(*self);
                assert forall|j: int| 0 <= j < trace.len() - 1 implies gravity_step(
                    #[trigger] trace[j],
                    trace[j + 1],
                ) by {
                    if j < before.len() - 1 {
                        assert(gravity_step(before[j], before[j + 1]));
                    }
                }
            }
            i += 1;
        }
    }

    /// Removes the solid rows of the field and scores them: the level times
    /// 100, 300, 500 or 800 for one to four rows, nothing for any other
    /// number.
    fn try_clear(&mut self)
        requires
            old(self).wf(),
        ensures
            final(self).wf(),
            clears(*old(self), *final(self)),
    {
        let n = clear_lines(&mut self.board);
        let points: u64 = if n == 1 {
            100
        } else if n == 2 {
            300
        } else if n == 3 {
            500
        } else if n == 4 {
            800
        } else {
            0
        };
        let total: u64 = self.score as u64 + self.level as u64 * points;
        self.score = if total > u32::MAX as u64 {
            u32::MAX
        } else {
            total as u32
        };
        let lines: u64 = self.lines as u64 + n as u64;
        self.lines = if lines > u32::MAX as u64 {
            u32::MAX
        } else {
            lines as u32
        };
    }
}

impl Default for Tetris {
    /// A session on an empty field with a random first piece and queue.
    fn default() -> (r: Tetris)
        ensures
            r.wf(),
            r.upcoming().len() == QUEUE_LEN,
            rows(r.grid()) == empty_rows(MAX_ROW as nat),
            spawned(r.piece(), r.piece().tetromino),
            is_full_set(r.bag_items() + r.upcoming().reverse() + seq![r.piece().tetromino]),
            r.held_kind() is None,
            !r.swap_ok(),
            r.delay() == 0,
            r.gravity() == 0,
            r.score_spec() == 0,
            r.level_spec() == 0,
            r.lines_spec() == 0,
            !r.over_spec(),
    {
        Tetris::new(None, None)
    }
}

/// Cells per frame that gravity moves a piece at `level`, in millionths.
fn gravity_per_frame(level: u32) -> (r: u64)
    ensures
        r == gravity_rate(level as int),
        r <= 2361180,
{
    if level == 0 {
        13450
    } else if level == 1 {
        16667
    } else if level == 2 {
        21017
    } else if level == 3 {
        26978
    } else if level == 4 {
        35256
    } else if level == 5 {
        46922
    } else if level == 6 {
        63612
    } else if level == 7 {
        87869
    } else if level == 8 {
        123700
    } else if level == 9 {
        177527
    } else if level == 10 {
        259801
    } else if level == 11 {
        387811
    } else if level == 12 {
        590646
    } else if level == 13 {
        918105
    } else if level == 14 {
        1456960
    } else {
        2361180
    }
}

/// Adding to a counter that stopped at its largest value gives what one
/// addition of the sum gives.
proof fn lemma_sat_add(x: int, y: int)
    requires
        0 <= x,
        0 <= y,
    ensures
        sat(sat(x) + y) == sat(x + y),
{
}

/// Locking a piece and then clearing is a lock with clearing.
proof fn lemma_lock_then_clear(
    a: Tetris,
    cells: Seq<(int, int)>,
    bonus: int,
    b: Tetris,
    c: Tetris,
)
    requires
        0 <= a.score + bonus,
        locks(a, cells, bonus, false, b),
        clears(b, c),
    ensures
        locks(a, cells, bonus, true, c),
{
    let stamped = stamp(rows(a.grid()), cells, tag_of(a.piece().tetromino));
    let n = solid_count(stamped);
    lemma_kept_len(stamped);
    assert(0 <= a.level * award(n)) by (nonlinear_arith)
        requires
            0 <= a.level,
            0 <= award(n),
    ;
    lemma_sat_add(a.score + bonus, a.level * award(n));
}

/// A well-formed session has four upcoming kinds.
pub proof fn lemma_queue_holds_four(t: Tetris)
    requires
        t.wf(),
    ensures
        t.upcoming().len() == QUEUE_LEN,
{
}

/// A fresh piece lies on the field.
proof fn lemma_spawn_on_field(p: ActivePiece)
    requires
        p.origin.row() == SPAWN_ROW,
        p.origin.col() == SPAWN_COL,
    ensures
        on_field(p.cells()),
{
    lemma_offsets_small(p.tetromino, p.rotation);
}

/// On an empty field, an I piece lying flat with its origin in column four
/// falls to the bottom row.
proof fn lemma_i_drop_on_empty(b: Grid, r: int)
    requires
        rows(b) == empty_rows(MAX_ROW as nat),
        0 <= r < MAX_ROW,
    ensures
        drop_distance(b, Tetromino::I, r, SPAWN_COL as int, State::Up) == MAX_ROW - 1 - r,
    decreases MAX_ROW - r,
{
    let k = Tetromino::I;
    let c = SPAWN_COL as int;
    if r + 1 < MAX_ROW {
        let cells = squares(k, r + 1, c, State::Up);
        assert forall|i: int| 0 <= i < cells.len() implies in_bounds(#[trigger] cells[i].0, cells[i].1)
            && cell(b, cells[i].0, cells[i].1) == 0 by {
            assert(rows(b)[cells[i].0] == empty_row());
        }
        assert(fits_at(b, k, r + 1, c, State::Up));
        lemma_i_drop_on_empty(b, r + 1);
    } else {
        assert(!fits_at(b, k, r + 1, c, State::Up));
    }
}

/// A hard drop of a freshly spawned I piece on an empty field lands it
/// flat on the bottom row, nineteen rows below where it spawned: it scores
/// two points a row, clears nothing, and the queue moves up by one and
/// stays four long.
pub proof fn lemma_i_piece_lands_flat(old: Tetris, new: Tetris)
    requires
        old.wf(),
        rows(old.grid()) == empty_rows(MAX_ROW as nat),
        spawned(old.piece(), Tetromino::I),
        hard_dropped(old, new),
    ensures
        drop_distance(old.grid(), Tetromino::I, SPAWN_ROW as int, SPAWN_COL as int, State::Up)
            == 19,
        forall|i: int|
            0 <= i < 4 ==> (#[trigger] squares(
                Tetromino::I,
                SPAWN_ROW + 19,
                SPAWN_COL as int,
                State::Up,
            )[i]).0 == MAX_ROW - 1,
        rows(new.grid()) == stamp(
            rows(old.grid()),
            squares(Tetromino::I, SPAWN_ROW + 19, SPAWN_COL as int, State::Up),
            tag_of(Tetromino::I),
        ),
        new.lines_spec() == old.lines_spec(),
        new.score_spec() == sat(old.score_spec() + 38),
        new.upcoming().len() == QUEUE_LEN,
        new.upcoming().take(3) == old.upcoming().skip(1),
{
    let b = old.board;
    lemma_i_drop_on_empty(b, SPAWN_ROW as int);
    let cells = squares(Tetromino::I, SPAWN_ROW + 19, SPAWN_COL as int, State::Up);
    let stamped = stamp(rows(b), cells, tag_of(Tetromino::I));
    assert forall|r: int| 0 <= r < stamped.len() implies !solid(#[trigger] stamped[r]) by {
        assert(!cells.contains((r, 0)));
        assert(stamped[r][0] == 0);
    }
    lemma_kept_none_solid(stamped);
    assert(after_clear(stamped) =~= stamped);
    assert(new.upcoming().take(3) =~= old.upcoming().skip(1));
}

/// From a lock-delay count of zero, thirty lock-delay checks in a row lock
/// nothing and only count frames; the thirty-first locks the piece exactly
/// when it can make none of the four basic moves.
pub proof fn lemma_lock_delay(states: Seq<Tetris>, locked: Seq<bool>)
    requires
        states.len() == LOCK_DELAY + 2,
        locked.len() == LOCK_DELAY + 1,
        states[0].delay() == 0,
        forall|i: int|
            0 <= i <= LOCK_DELAY ==> #[trigger] lock_check(states[i], locked[i], states[i + 1]),
    ensures
        forall|i: int| 0 <= i < LOCK_DELAY ==> !(#[trigger] locked[i]),
        locked[LOCK_DELAY as int] == ({
            let (row, col, rot) = states[0].placement();
            immobile(states[0].grid(), states[0].piece().tetromino, row, col, rot)
        }),
{
    lemma_lock_delay_counts(states, locked, LOCK_DELAY as int);
    let n = LOCK_DELAY as int;
    assert(lock_check(states[n], locked[n], states[n + 1]));
}

/// The first `n` checks of `lemma_lock_delay` only count frames.
proof fn lemma_lock_delay_counts(states: Seq<Tetris>, locked: Seq<bool>, n: int)
    requires
        states.len() == LOCK_DELAY + 2,
        locked.len() == LOCK_DELAY + 1,
        states[0].delay() == 0,
        forall|i: int|
            0 <= i <= LOCK_DELAY ==> #[trigger] lock_check(states[i], locked[i], states[i + 1]),
        0 <= n <= LOCK_DELAY,
    ensures
        forall|i: int| 0 <= i < n ==> !(#[trigger] locked[i]),
        states[n].delay_count == n,
        states[n].board == states[0].board,
        states[n].active == states[0].active,
    decreases n,
{
    if n > 0 {
        lemma_lock_delay_counts(states, locked, n - 1);
        let j = n - 1;
        assert(lock_check(states[j], locked[j], states[j + 1]));
    }
}

/// With the two bottom rows solid and every row above them empty, a lock
/// with clearing of a piece that completes no other row clears exactly
/// those two rows: the line count grows by two, and the score by the
/// level times 300 on top of the drop bonus.
pub proof fn lemma_two_line_clear(old: Tetris, cells: Seq<(int, int)>, bonus: int, new: Tetris)
    requires
        rows(old.grid()).len() == MAX_ROW,
        solid(rows(old.grid())[MAX_ROW - 2]),
        solid(rows(old.grid())[MAX_ROW - 1]),
        forall|r: int| 0 <= r < MAX_ROW - 2 ==> #[trigger] rows(old.grid())[r] == empty_row(),
        forall|r: int|
            0 <= r < MAX_ROW - 2 ==> !solid(
                #[trigger] stamp(rows(old.grid()), cells, tag_of(old.piece().tetromino))[r],
            ),
        0 <= bonus,
        locks(old, cells, bonus, true, new),
    ensures
        new.lines_spec() == sat(old.lines_spec() + 2),
        new.score_spec() == sat(old.score_spec() + bonus + old.level_spec() * 300),
        rows(new.grid()) == empty_rows(2) + stamp(
            rows(old.grid()),
            cells,
            tag_of(old.piece().tetromino),
        ).take(MAX_ROW - 2),
{
    let stamped = stamp(rows(old.grid()), cells, tag_of(old.piece().tetromino));
    let top = stamped.take(MAX_ROW - 2);
    let bottom = stamped.skip(MAX_ROW - 2);
    assert(stamped =~= top + bottom);
    assert forall|i: int| 0 <= i < top.len() implies !solid(#[trigger] top[i]) by {
        assert(top[i] == stamped[i]);
    }
    assert forall|i: int| 0 <= i < bottom.len() implies solid(#[trigger] bottom[i]) by {
        let r = MAX_ROW - 2 + i;
        assert(bottom[i] == stamped[r]);
        assert forall|c: int| 0 <= c < bottom[i].len() implies bottom[i][c] != 0 by {
            assert(rows(old.grid())[r][c] != 0);
        }
    }
    lemma_kept_split(top, bottom);
    lemma_kept_none_solid(top);
    lemma_kept_all_solid(bottom);
    assert(kept(stamped) =~= top);
    assert(solid_count(stamped) == 2);
}

/// A second hold with no lock since the first changes neither the held
/// kind nor the falling piece.
pub proof fn lemma_hold_twice(a: Tetris, b: Tetris, c: Tetris)
    requires
        holds(a, b),
        holds(b, c),
    ensures
        c.held_kind() == b.held_kind(),
        c.piece() == b.piece(),
{
}

/// Locking a piece with a cell in the top visible row or above ends the
/// game, and a game that has ended stays ended.
pub proof fn lemma_game_over_on_lock(
    old: Tetris,
    cells: Seq<(int, int)>,
    bonus: int,
    clear: bool,
    new: Tetris,
)
    requires
        locks(old, cells, bonus, clear, new),
    ensures
        reaches_top(cells) ==> new.over_spec(),
        old.over_spec() ==> new.over_spec(),
{
}

} // verus!
