use tetris::{State, Tetromino};

fn kinds() -> [Tetromino; 7] {
    [
        Tetromino::I,
        Tetromino::O,
        Tetromino::T,
        Tetromino::J,
        Tetromino::L,
        Tetromino::S,
        Tetromino::Z,
    ]
}

fn states() -> [State; 4] {
    [State::Up, State::Right, State::Down, State::Left]
}

#[test]
fn every_shape_has_four_distinct_cells() {
    for k in kinds() {
        for s in states() {
            let cells = k.shape(s);
            for i in 0..4 {
                for j in (i + 1)..4 {
                    assert_ne!(cells[i], cells[j], "{:?} {:?}", k, s);
                }
            }
        }
    }
}

#[test]
fn square_ignores_rotation() {
    let up = Tetromino::O.shape(State::Up);
    for s in states() {
        assert_eq!(Tetromino::O.shape(s), up);
    }
}

#[test]
fn other_kinds_differ_between_rotations() {
    for k in kinds() {
        if k == Tetromino::O {
            continue;
        }
        for a in 0..4 {
            for b in (a + 1)..4 {
                let mut x = k.shape(states()[a]);
                let mut y = k.shape(states()[b]);
                x.sort();
                y.sort();
                assert_ne!(x, y, "{:?}", k);
            }
        }
    }
}

#[test]
fn i_piece_lies_flat_when_up() {
    assert_eq!(Tetromino::I.shape(State::Up), [(0, -1), (0, 0), (0, 1), (0, 2)]);
    assert_eq!(Tetromino::I.shape(State::Right), [(-1, 0), (0, 0), (1, 0), (2, 0)]);
}

#[test]
fn rotation_cycles() {
    assert_eq!(State::Up.rotate(true), State::Right);
    assert_eq!(State::Right.rotate(true), State::Down);
    assert_eq!(State::Down.rotate(true), State::Left);
    assert_eq!(State::Left.rotate(true), State::Up);
    assert_eq!(State::Up.rotate(false), State::Left);
    assert_eq!(State::Left.rotate(false), State::Down);
    for s in states() {
        assert_eq!(s.rotate(true).rotate(false), s);
    }
}

#[test]
fn tags_run_from_one_to_seven() {
    let tags: Vec<u8> = kinds().iter().map(|k| u8::from(*k)).collect();
    assert_eq!(tags, vec![1, 2, 3, 4, 5, 6, 7]);
    assert_eq!(Tetromino::Z.tag(), 7);
}
