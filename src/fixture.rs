//! Fields written as text art: each visible row as ten cells, where `[]`
//! is an occupied cell and `.` or `X` an empty one.
use vstd::prelude::*;
use crate::board::{empty_grid, empty_rows, rows, Grid};
use crate::pos::{MAX_COL, MAX_ROW};

verus! {

/// Whether `c` is a line break or a space, which the text art ignores.
pub open spec fn is_blank(c: char) -> bool {
    c == '\n' || c == '\r' || c == ' '
}

/// The characters of `s` other than line breaks and spaces.
pub open spec fn visible(s: Seq<char>) -> Seq<char>
    decreases s.len(),
{
    if s.len() == 0 {
        seq![]
    } else if is_blank(s.last()) {
        visible(s.drop_last())
    } else {
        visible(s.drop_last()).push(s.last())
    }
}

/// The first `n` cells read from `cs`: `[` marks an occupied cell and
/// takes the character after it along; any other character is an empty
/// cell. None if the characters run out first.
pub open spec fn read_cells(cs: Seq<char>, n: nat) -> Option<Seq<u8>>
    decreases n,
{
    if n == 0 {
        Some(seq![])
    } else if cs.len() == 0 {
        None
    } else {
        let (v, rest) = if cs[0] == '[' {
            (1u8, cs.skip(if cs.len() >= 2 { 2 } else { 1 }))
        } else {
            (0u8, cs.skip(1))
        };
        match read_cells(rest, (n - 1) as nat) {
            Some(tail) => Some(seq![v] + tail),
            None => None,
        }
    }
}

/// The field whose hidden rows are empty and whose visible rows hold
/// `cells`, row by row.
pub open spec fn field_of(cells: Seq<u8>) -> Seq<Seq<u8>> {
    Seq::new(
        MAX_ROW as nat,
        |r: int|
            if r < 20 {
                empty_rows(1)[0]
            } else {
                cells.subrange((r - 20) * MAX_COL, (r - 19) * MAX_COL)
            },
    )
}

/// The characters of `s` without line breaks and spaces.
fn visible_chars(s: &str) -> (r: Vec<char>)
    ensures
        r@ == visible(s@),
{
    let mut r: Vec<char> = Vec::new();
    for c in it: s.chars()
        invariant
            it.seq() == s@,
            r@ == visible(s@.take(it.index() as int)),
    {
        proof {
            let i = it.index() as int;
            assert(s@.take(i + 1).drop_last() =~= s@.take(i));
            assert(s@.take(i + 1).last() == c);
        }
        if !(c == '\n' || c == '\r' || c == ' ') {
            r.push(c);
        }
    }
    proof {
        assert(s@.take(s@.len() as int) =~= s@);
    }
    r
}

/// `tail` with `head` put in front of it, if there is a tail.
pub open spec fn prefixed(head: Seq<u8>, tail: Option<Seq<u8>>) -> Option<Seq<u8>> {
    match tail {
        Some(t) => Some(head + t),
        None => None,
    }
}

/// Whether the visible rows of `b` hold `got`, row by row, and every other
/// cell is empty.
pub open spec fn holds_cells(b: Grid, got: Seq<u8>) -> bool {
    forall|r: int, c: int|
        0 <= r < MAX_ROW && 0 <= c < MAX_COL ==> #[trigger] rows(b)[r][c] == if 20 <= r && (r
            - 20) * MAX_COL + c < got.len() {
            got[(r - 20) * MAX_COL + c]
        } else {
            0
        }
}

/// Number of cells in the visible rows.
pub const VISIBLE_CELLS: usize = 200;

/// Reads a field from text art: line breaks and spaces are ignored, and
/// the rest gives the cells of the twenty visible rows in order, `[]` for
/// an occupied cell (tagged 1) and any other character for an empty one.
/// The hidden rows are empty. None if the text ends before the last cell.
pub fn convert_string_to_u8_array(s: &str) -> (r: Option<Grid>)
    ensures
        match read_cells(visible(s@), VISIBLE_CELLS as nat) {
            Some(cells) => r is Some && rows(r->Some_0) == field_of(cells),
            None => r is None,
        },
{
    let cs = visible_chars(s);
    let mut board = empty_grid();
    let ghost mut got: Seq<u8> = seq![];
    let mut pos: usize = 0;
    let mut i: usize = 20;
    proof {
        assert(cs@.skip(0) =~= cs@);
        if let Some(t) = read_cells(cs@, VISIBLE_CELLS as nat) {
            assert(got + t =~= t);
        }
    }
    while i < MAX_ROW
        invariant
            20 <= i <= MAX_ROW,
            pos <= cs@.len(),
            got.len() == (i - 20) * MAX_COL,
            read_cells(cs@, VISIBLE_CELLS as nat) == prefixed(
                got,
                read_cells(cs@.skip(pos as int), (VISIBLE_CELLS - got.len()) as nat),
            ),
            cs@ == visible(s@),
            holds_cells(board, got),
        decreases MAX_ROW - i,
    {
        let mut j: usize = 0;
        while j < MAX_COL
            invariant
                20 <= i < MAX_ROW,
                j <= MAX_COL,
                pos <= cs@.len(),
                got.len() == (i - 20) * MAX_COL + j,
                read_cells(cs@, VISIBLE_CELLS as nat) == prefixed(
                got,
                read_cells(cs@.skip(pos as int), (VISIBLE_CELLS - got.len()) as nat),
            ),
                cs@ == visible(s@),
                holds_cells(board, got),
            decreases MAX_COL - j,
        {
            let ghost rest = cs@.skip(pos as int);
            let ghost m = (VISIBLE_CELLS - got.len()) as nat;
            if pos >= cs.len() {
                proof {
                    assert(rest.len() == 0);
                    assert(read_cells(rest, m) is None);
                }
                return None;
            }
            let c = cs[pos];
            let ghost before = board;
            let v: u8 = if c == '[' { 1 } else { 0 };
            if c == '[' {
                pos = if pos + 1 < cs.len() { pos + 2 } else { pos + 1 };
            } else {
                pos = pos + 1;
            }
            let mut line = board[i];
            line[j] = v;
            board[i] = line;
            proof {
                let next = cs@.skip(pos as int);
                assert(rest[0] == c);
                if c == '[' {
                    assert(rest.skip(if rest.len() >= 2 { 2 } else { 1 }) =~= next);
                } else {
                    assert(rest.skip(1) =~= next);
                }
                assert(read_cells(rest, m) == prefixed(seq![v], read_cells(next, (m - 1) as nat)));
                let og = got;
                got = got.push(v);
                if let Some(t) = read_cells(next, (m - 1) as nat) {
                    assert(og + (seq![v] + t) =~= got + t);
                }
                assert(board@ =~= before@.update(i as int, line));
                assert forall|r: int, c: int|
                    0 <= r < MAX_ROW && 0 <= c < MAX_COL implies #[trigger] rows(board)[r][c]
                        == if 20 <= r && (r - 20) * MAX_COL + c < got.len() {
                        got[(r - 20) * MAX_COL + c]
                    } else {
                        0
                    } by {
                    assert(rows(board)[r] == if r == i { line@ } else { rows(before)[r] });
                    assert(line@ == rows(before)[i as int].update(j as int, v));
                    let old_cell = rows(before)[r][c];
                    assert(old_cell == if 20 <= r && (r - 20) * MAX_COL + c < og.len() {
                        og[(r - 20) * MAX_COL + c]
                    } else {
                        0
                    });
                }
            }
            j += 1;
        }
        i += 1;
    }
    proof {
        assert(read_cells(cs@.skip(pos as int), 0) == Some(Seq::<u8>::empty()));
        assert(got + Seq::<u8>::empty() =~= got);
        assert(rows(board) =~= field_of(got)) by {
            assert forall|r: int| 0 <= r < MAX_ROW implies #[trigger] rows(board)[r] =~= field_of(got)[r] by {
                assert forall|c: int| 0 <= c < MAX_COL implies rows(board)[r][c] == field_of(
                    got,
                )[r][c] by {}
            }
        }
    }
    Some(board)
}

} // verus!
