use tetris::board::{clear_lines, collapse_row, empty_grid, is_solid};
use tetris::{Pos, MAX_COL, MAX_ROW};

#[test]
fn pos_new_and_coords() {
    let p = Pos::new(39, 9);
    assert_eq!(p.coords(), (39, 9));
    assert_eq!(MAX_ROW, 40);
    assert_eq!(MAX_COL, 10);
}

#[test]
fn pos_try_move_stays_on_field() {
    let p = Pos::new(20, 4);
    assert_eq!(p.try_move(1, 0).map(|q| q.coords()), Some((20, 5)));
    assert_eq!(p.try_move(0, 1).map(|q| q.coords()), Some((21, 4)));
    assert_eq!(p.try_move(-4, -20).map(|q| q.coords()), Some((0, 0)));
    assert!(p.try_move(-5, 0).is_none());
    assert!(p.try_move(6, 0).is_none());
    assert!(Pos::new(39, 0).try_move(0, 1).is_none());
    assert!(Pos::new(0, 0).try_move(0, -1).is_none());
}

#[test]
fn pos_in_range() {
    assert!(Pos::in_range(0, 0));
    assert!(Pos::in_range(39, 9));
    assert!(!Pos::in_range(40, 0));
    assert!(!Pos::in_range(0, 10));
    assert!(!Pos::in_range(-1, 3));
    assert!(!Pos::in_range(3, -1));
}

#[test]
fn collapse_shifts_rows_down_and_empties_top() {
    let mut b = empty_grid();
    b[0] = [9; 10];
    b[5] = [1, 2, 3, 4, 5, 6, 7, 1, 2, 3];
    b[6] = [7; 10];
    b[7] = [3; 10];
    collapse_row(&mut b, 6);
    assert_eq!(b[0], [0; 10]);
    assert_eq!(b[1], [9; 10]);
    assert_eq!(b[6], [1, 2, 3, 4, 5, 6, 7, 1, 2, 3]);
    assert_eq!(b[7], [3; 10]);
}

#[test]
fn clear_lines_removes_every_solid_row() {
    let mut b = empty_grid();
    b[39] = [1; 10];
    b[38] = [2, 0, 2, 2, 2, 2, 2, 2, 2, 2];
    b[37] = [3; 10];
    b[36] = [4; 10];
    b[35] = [0, 5, 0, 0, 0, 0, 0, 0, 0, 0];
    assert!(is_solid(&b, 39));
    assert!(!is_solid(&b, 38));
    let n = clear_lines(&mut b);
    assert_eq!(n, 3);
    assert_eq!(b[39], [2, 0, 2, 2, 2, 2, 2, 2, 2, 2]);
    assert_eq!(b[38], [0, 5, 0, 0, 0, 0, 0, 0, 0, 0]);
    for r in 0..38 {
        assert_eq!(b[r], [0; 10]);
    }
}

#[test]
fn clear_lines_on_full_field_empties_it() {
    let mut b = [[6u8; 10]; 40];
    assert_eq!(clear_lines(&mut b), 40);
    assert_eq!(b, empty_grid());
}
