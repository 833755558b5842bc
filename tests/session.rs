use tetris::board::empty_grid;
use tetris::{Grid, State, Tetris, Tetromino};

fn sorted(mut v: [(i32, i32); 4]) -> [(i32, i32); 4] {
    v.sort();
    v
}

#[test]
fn new_session_starts_clean() {
    let t = Tetris::new(None, Some(Tetromino::I));
    assert_eq!(t.get_board(), empty_grid());
    assert_eq!(t.get_active().tetromino, Tetromino::I);
    assert_eq!(t.get_active().origin.coords(), (20, 4));
    assert_eq!(t.get_queue().len(), 4);
    assert_eq!(t.get_held(), (None, false));
    assert_eq!((t.score(), t.level(), t.lines(), t.is_game_over()), (0, 0, 0, false));
}

#[test]
fn default_session_deals_five_different_kinds() {
    let t = Tetris::default();
    let mut kinds: Vec<u8> = t.get_queue().iter().map(|k| u8::from(*k)).collect();
    kinds.push(u8::from(t.get_active().tetromino));
    kinds.sort();
    kinds.dedup();
    assert_eq!(kinds.len(), 5);
}

#[test]
fn hard_drop_of_i_piece_lands_flat_on_the_floor() {
    let mut t = Tetris::new(None, Some(Tetromino::I));
    let queue = t.get_queue();
    t.hard_drop();
    let b = t.get_board();
    assert_eq!(b[39], [0, 0, 0, 1, 1, 1, 1, 0, 0, 0]);
    for r in 0..39 {
        assert_eq!(b[r], [0; 10]);
    }
    assert_eq!(t.score(), 38);
    assert_eq!(t.lines(), 0);
    let after = t.get_queue();
    assert_eq!(after.len(), 4);
    assert_eq!(&after[0..3], &queue[1..4]);
    assert_eq!(t.get_active().tetromino, queue[0]);
    assert!(!t.is_game_over());
}

#[test]
fn soft_drop_scores_one_and_moves_down() {
    let mut t = Tetris::new(None, Some(Tetromino::T));
    t.soft_drop();
    assert_eq!(t.score(), 1);
    assert_eq!(t.get_active().origin.coords(), (21, 4));
}

#[test]
fn soft_drop_on_the_floor_locks() {
    let mut t = Tetris::new(None, Some(Tetromino::O));
    for _ in 0..19 {
        t.soft_drop();
    }
    assert_eq!(t.get_active().origin.coords(), (39, 4));
    let next = t.get_queue()[0];
    t.soft_drop();
    assert_eq!(t.score(), 20);
    let b = t.get_board();
    assert_eq!(b[39], [0, 0, 0, 0, 2, 2, 0, 0, 0, 0]);
    assert_eq!(b[38], [0, 0, 0, 0, 2, 2, 0, 0, 0, 0]);
    assert_eq!(t.get_active().tetromino, next);
    assert_eq!(t.get_held().1, true);
}

fn two_solid_rows() -> Grid {
    let mut b = empty_grid();
    b[38] = [5; 10];
    b[39] = [6; 10];
    b
}

#[test]
fn two_lines_clear_for_three_hundred_per_level() {
    let mut t = Tetris::new(Some(two_solid_rows()), Some(Tetromino::I));
    t.set_level(2);
    t.hard_drop();
    assert_eq!(t.lines(), 2);
    // 17 rows of drop at two points each, then 300 times level 2.
    assert_eq!(t.score(), 34 + 600);
    let b = t.get_board();
    assert_eq!(b[39], [0, 0, 0, 1, 1, 1, 1, 0, 0, 0]);
    for r in 0..39 {
        assert_eq!(b[r], [0; 10]);
    }
}

#[test]
fn line_clear_at_level_zero_scores_nothing() {
    let mut t = Tetris::new(Some(two_solid_rows()), Some(Tetromino::I));
    t.hard_drop();
    assert_eq!(t.lines(), 2);
    assert_eq!(t.score(), 34);
}

#[test]
fn four_lines_clear_for_eight_hundred_per_level() {
    let mut b = empty_grid();
    for r in 36..40 {
        b[r] = [3, 3, 3, 3, 3, 3, 3, 3, 3, 0];
    }
    let mut t = Tetris::new(Some(b), Some(Tetromino::I));
    t.set_level(1);
    t.rotate(true);
    for _ in 0..5 {
        t.shift(false);
    }
    assert_eq!(sorted(t.get_active().get_squares()), [(19, 9), (20, 9), (21, 9), (22, 9)]);
    t.hard_drop();
    assert_eq!(t.lines(), 4);
    assert_eq!(t.score(), 2 * 17 + 800);
    assert_eq!(t.get_board(), empty_grid());
}

#[test]
fn hold_stores_the_piece_and_draws_the_next() {
    let mut t = Tetris::new(None, Some(Tetromino::T));
    let queue = t.get_queue();
    t.hold();
    assert_eq!(t.get_held(), (Some(Tetromino::T), false));
    assert_eq!(t.get_active().tetromino, queue[0]);
    assert_eq!(t.get_queue()[0..3], queue[1..4]);
}

#[test]
fn second_hold_without_a_lock_does_nothing() {
    let mut t = Tetris::new(None, Some(Tetromino::T));
    t.hold();
    let held = t.get_held();
    let active = t.get_active().tetromino;
    let queue = t.get_queue();
    t.hold();
    assert_eq!(t.get_held(), held);
    assert_eq!(t.get_active().tetromino, active);
    assert_eq!(t.get_queue(), queue);
}

#[test]
fn hold_swaps_after_a_lock() {
    let mut t = Tetris::new(None, Some(Tetromino::T));
    t.hold();
    t.hard_drop();
    assert_eq!(t.get_held(), (Some(Tetromino::T), true));
    let current = t.get_active().tetromino;
    t.hold();
    assert_eq!(t.get_held(), (Some(current), false));
    assert_eq!(t.get_active().tetromino, Tetromino::T);
    assert_eq!(t.get_active().origin.coords(), (20, 4));
    assert_eq!(t.get_active().rotation, State::Up);
}

#[test]
fn set_level_stops_at_fifteen() {
    let mut t = Tetris::new(None, Some(Tetromino::T));
    t.set_level(7);
    assert_eq!(t.level(), 7);
    t.set_level(20);
    assert_eq!(t.level(), 15);
}

/// An O piece at the spawn point with no room to move: a floor below it
/// and walls on both sides.
fn pit() -> Grid {
    let mut b = empty_grid();
    b[21] = [0, 1, 1, 1, 1, 1, 1, 1, 1, 0];
    for r in 19..21 {
        b[r][3] = 1;
        b[r][6] = 1;
    }
    b
}

#[test]
fn immobile_piece_locks_on_the_thirty_first_check() {
    let mut t = Tetris::new(Some(pit()), Some(Tetromino::O));
    for i in 0..30 {
        t.shift(true);
        assert_eq!(t.get_delay(), i + 1);
        assert_eq!(t.get_active().tetromino, Tetromino::O);
        assert_eq!(t.get_board()[20][4], 0);
    }
    t.shift(true);
    let b = t.get_board();
    assert_eq!(b[20][4], 2);
    assert_eq!(b[19][5], 2);
    assert!(t.is_game_over());
}

#[test]
fn piece_that_can_still_turn_does_not_lock() {
    let mut b = pit();
    for r in 19..21 {
        b[r][3] = 0;
        b[r][6] = 0;
    }
    b[20][2] = 1;
    b[20][7] = 1;
    b[19][2] = 1;
    b[19][7] = 1;
    let mut t = Tetris::new(Some(b), Some(Tetromino::T));
    for _ in 0..40 {
        t.rotate(true);
        t.rotate(false);
    }
    assert_eq!(t.get_active().tetromino, Tetromino::T);
    assert_eq!(t.get_board()[20][4], 0);
}

#[test]
fn locking_at_the_top_ends_the_game_for_good() {
    let mut b = empty_grid();
    for r in 21..40 {
        b[r] = [4, 4, 4, 4, 4, 4, 4, 4, 4, 0];
    }
    let mut t = Tetris::new(Some(b), Some(Tetromino::O));
    t.hard_drop();
    assert!(t.is_game_over());
    t.shift(true);
    t.hold();
    t.frame_advance();
    t.soft_drop();
    assert!(t.is_game_over());
}

#[test]
fn gravity_at_level_zero_drops_on_frame_seventy_five() {
    let mut t = Tetris::new(None, Some(Tetromino::T));
    for _ in 0..74 {
        t.frame_advance();
    }
    assert_eq!(t.get_active().origin.coords(), (20, 4));
    t.frame_advance();
    assert_eq!(t.get_active().origin.coords(), (21, 4));
    assert_eq!(t.get_delay(), 0);
}

#[test]
fn gravity_at_level_fifteen_drops_two_rows_a_frame() {
    let mut t = Tetris::new(None, Some(Tetromino::T));
    t.set_level(15);
    t.frame_advance();
    assert_eq!(t.get_active().origin.coords(), (22, 4));
}

#[test]
fn frames_count_towards_the_lock_delay() {
    let mut t = Tetris::new(None, Some(Tetromino::T));
    t.frame_advance();
    assert_eq!(t.get_delay(), 1);
}
