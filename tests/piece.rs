use tetris::board::empty_grid;
use tetris::{ActivePiece, Pos, State, Tetromino};

fn sorted(mut v: [(i32, i32); 4]) -> [(i32, i32); 4] {
    v.sort();
    v
}

#[test]
fn spawns_at_row_twenty_column_four() {
    let p = ActivePiece::new(Tetromino::T);
    assert_eq!(p.origin.coords(), (20, 4));
    assert_eq!(p.rotation, State::Up);
    assert_eq!(sorted(p.get_squares()), [(19, 4), (20, 3), (20, 4), (20, 5)]);
}

#[test]
fn validate_is_all_or_nothing() {
    let mut board = empty_grid();
    let mut p = ActivePiece::new(Tetromino::T);
    // The candidate one row down has three free cells and one taken.
    board[21][5] = 3;
    let cand = ActivePiece { tetromino: Tetromino::T, origin: Pos::new(21, 4), rotation: State::Up };
    assert!(!p.validate(&cand, &board));
    assert_eq!(p.origin.coords(), (20, 4));
    assert_eq!(p.rotation, State::Up);
    board[21][5] = 0;
    assert!(p.validate(&cand, &board));
    assert_eq!(p.origin.coords(), (21, 4));
}

#[test]
fn validate_rejects_cells_off_the_field() {
    let board = empty_grid();
    let mut p = ActivePiece::new(Tetromino::I);
    let cand = ActivePiece { tetromino: Tetromino::I, origin: Pos::new(20, 8), rotation: State::Up };
    assert!(!p.validate(&cand, &board));
    assert_eq!(p.origin.coords(), (20, 4));
}

#[test]
fn shift_and_soft_drop_move_one_cell() {
    let board = empty_grid();
    let mut p = ActivePiece::new(Tetromino::O);
    assert!(p.shift(true, &board));
    assert_eq!(p.origin.coords(), (20, 3));
    assert!(p.shift(false, &board));
    assert!(p.shift(false, &board));
    assert_eq!(p.origin.coords(), (20, 5));
    assert!(p.soft_drop(&board));
    assert_eq!(p.origin.coords(), (21, 5));
}

#[test]
fn shift_stops_at_the_wall() {
    let board = empty_grid();
    let mut p = ActivePiece::new(Tetromino::O);
    let mut moves = 0;
    while p.shift(true, &board) {
        moves += 1;
    }
    assert_eq!(moves, 4);
    assert_eq!(sorted(p.get_squares()), [(19, 0), (19, 1), (20, 0), (20, 1)]);
}

#[test]
fn soft_drop_stops_at_the_floor() {
    let board = empty_grid();
    let mut p = ActivePiece::new(Tetromino::I);
    let mut rows = 0;
    while p.soft_drop(&board) {
        rows += 1;
    }
    assert_eq!(rows, 19);
    assert_eq!(sorted(p.get_squares()), [(39, 3), (39, 4), (39, 5), (39, 6)]);
}

#[test]
fn square_piece_never_turns() {
    let board = empty_grid();
    let mut p = ActivePiece::new(Tetromino::O);
    assert!(!p.rotate(true, &board));
    assert!(!p.rotate(false, &board));
    assert_eq!(p.rotation, State::Up);
}

#[test]
fn i_piece_turns_about_its_centre() {
    let board = empty_grid();
    let mut p = ActivePiece::new(Tetromino::I);
    assert!(p.rotate(true, &board));
    assert_eq!(p.rotation, State::Right);
    assert_eq!(p.origin.coords(), (20, 5));
    assert_eq!(sorted(p.get_squares()), [(19, 5), (20, 5), (21, 5), (22, 5)]);
}

#[test]
fn t_piece_kicks_left_when_blocked() {
    let mut board = empty_grid();
    board[21][4] = 1;
    let mut p = ActivePiece::new(Tetromino::T);
    assert!(p.rotate(true, &board));
    assert_eq!(p.rotation, State::Right);
    assert_eq!(p.origin.coords(), (20, 3));
    assert_eq!(sorted(p.get_squares()), [(19, 3), (20, 3), (20, 4), (21, 3)]);
}

#[test]
fn failed_rotation_leaves_the_piece() {
    let mut board = empty_grid();
    for r in 15..30 {
        for c in 0..10 {
            board[r][c] = 1;
        }
    }
    for &(r, c) in &[(19, 4), (20, 3), (20, 4), (20, 5)] {
        board[r][c] = 0;
    }
    let mut p = ActivePiece::new(Tetromino::T);
    assert!(!p.rotate(true, &board));
    assert!(!p.rotate(false, &board));
    assert_eq!(p.origin.coords(), (20, 4));
    assert_eq!(p.rotation, State::Up);
}

#[test]
fn i_piece_kicks_from_its_shifted_centre() {
    let mut board = empty_grid();
    board[21][5] = 1;
    let mut p = ActivePiece::new(Tetromino::I);
    assert!(p.rotate(true, &board));
    assert_eq!(p.rotation, State::Right);
    assert_eq!(p.origin.coords(), (20, 3));
    assert_eq!(sorted(p.get_squares()), [(19, 3), (20, 3), (21, 3), (22, 3)]);
}

#[test]
fn counter_clockwise_kick_uses_the_mirrored_table() {
    let mut board = empty_grid();
    board[21][4] = 1;
    let mut p = ActivePiece::new(Tetromino::T);
    // Turning to Left is blocked where it stands; the first kick moves the
    // origin one column left.
    assert!(p.rotate(false, &board));
    assert_eq!(p.rotation, State::Left);
    assert_eq!(p.origin.coords(), (20, 3));
}
