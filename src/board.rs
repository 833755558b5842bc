//! The playing field: a grid of cells, each empty (0) or tagged with the
//! kind of the piece that was locked there.
use vstd::prelude::*;
use crate::pos::{MAX_COL, MAX_ROW};

verus! {

/// The playing field, indexed by row then column. Rows 0 to 19 are the
/// hidden buffer above the visible rows 20 to 39.
pub type Grid = [[u8; MAX_COL]; MAX_ROW];

/// The field as a sequence of rows.
pub open spec fn rows(b: Grid) -> Seq<Seq<u8>> {
    b@.map_values(|r: [u8; MAX_COL]| r@)
}

/// The content of cell (r, c).
pub open spec fn cell(b: Grid, r: int, c: int) -> u8 {
    b@[r]@[c]
}

/// A row with no occupied cell.
pub open spec fn empty_row() -> Seq<u8> {
    Seq::new(MAX_COL as nat, |c: int| 0u8)
}

/// `n` empty rows.
pub open spec fn empty_rows(n: nat) -> Seq<Seq<u8>> {
    Seq::new(n, |i: int| empty_row())
}

/// A row whose every cell is occupied.
pub open spec fn solid(row: Seq<u8>) -> bool {
    forall|c: int| 0 <= c < row.len() ==> row[c] != 0
}

/// The rows that are not solid, in their order.
pub open spec fn kept(rs: Seq<Seq<u8>>) -> Seq<Seq<u8>>
    decreases rs.len(),
{
    if rs.len() == 0 {
        seq![]
    } else if solid(rs[0]) {
        kept(rs.drop_first())
    } else {
        seq![rs[0]] + kept(rs.drop_first())
    }
}

/// How many solid rows there are.
pub open spec fn solid_count(rs: Seq<Seq<u8>>) -> int {
    rs.len() - kept(rs).len()
}

/// The field after every solid row is removed and the rows above it have
/// fallen into its place: as many empty rows on top as were removed, then
/// the remaining rows in their order.
pub open spec fn after_clear(rs: Seq<Seq<u8>>) -> Seq<Seq<u8>> {
    empty_rows(solid_count(rs) as nat) + kept(rs)
}

/// Removing solid rows never adds rows.
pub proof fn lemma_kept_len(rs: Seq<Seq<u8>>)
    ensures
        kept(rs).len() <= rs.len(),
    decreases rs.len(),
{
    if rs.len() > 0 {
        lemma_kept_len(rs.drop_first());
    }
}

/// Removing solid rows from two parts is removing them from each.
pub proof fn lemma_kept_split(a: Seq<Seq<u8>>, b: Seq<Seq<u8>>)
    ensures
        kept(a + b) == kept(a) + kept(b),
    decreases a.len(),
{
    if a.len() == 0 {
        assert(a + b =~= b);
        assert(kept(a) + kept(b) =~= kept(b));
    } else {
        lemma_kept_split(a.drop_first(), b);
        assert((a + b).drop_first() =~= a.drop_first() + b);
        if solid(a[0]) {
        } else {
            assert(seq![a[0]] + kept(a.drop_first()) + kept(b) =~= seq![a[0]] + (kept(
                a.drop_first(),
            ) + kept(b)));
        }
    }
}

/// Where no row is solid, every row is kept.
pub proof fn lemma_kept_none_solid(rs: Seq<Seq<u8>>)
    requires
        forall|i: int| 0 <= i < rs.len() ==> !solid(#[trigger] rs[i]),
    ensures
        kept(rs) == rs,
    decreases rs.len(),
{
    if rs.len() > 0 {
        assert(!solid(rs[0]));
        lemma_kept_none_solid(rs.drop_first());
        assert(seq![rs[0]] + rs.drop_first() =~= rs);
    }
}

/// Where every row is solid, none is kept.
pub proof fn lemma_kept_all_solid(rs: Seq<Seq<u8>>)
    requires
        forall|i: int| 0 <= i < rs.len() ==> solid(#[trigger] rs[i]),
    ensures
        kept(rs) == Seq::<Seq<u8>>::empty(),
    decreases rs.len(),
{
    if rs.len() > 0 {
        assert(solid(rs[0]));
        lemma_kept_all_solid(rs.drop_first());
    }
}

/// A field with every cell empty.
pub fn empty_grid() -> (r: Grid)
    ensures
        rows(r) == empty_rows(MAX_ROW as nat),
{
    let r: Grid = [[0u8; 10]; 40];
    assert(rows(r) =~= empty_rows(MAX_ROW as nat)) by {
        assert forall|i: int| 0 <= i < MAX_ROW implies #[trigger] rows(r)[i] == empty_row() by {
            assert(rows(r)[i] =~= empty_row());
        }
    }
    r
}

/// Whether every cell of `row` is occupied.
pub fn is_solid(b: &Grid, row: usize) -> (r: bool)
    requires
        row < MAX_ROW,
    ensures
        r == solid(rows(*b)[row as int]),
{
    let line = b[row];
    let mut c: usize = 0;
    while c < MAX_COL
        invariant
            c <= MAX_COL,
            line@ == rows(*b)[row as int],
            forall|i: int| 0 <= i < c ==> line@[i] != 0,
        decreases MAX_COL - c,
    {
        if line[c] == 0 {
            return false;
        }
        c += 1;
    }
    true
}

/// Removes `row` from the field: every row above it falls by one, and the
/// top row becomes empty.
pub fn collapse_row(b: &mut Grid, row: usize)
    requires
        row < MAX_ROW,
    ensures
        rows(*final(b)) == seq![empty_row()] + rows(*old(b)).take(row as int) + rows(
            *old(b),
        ).skip(row as int + 1),
{
    let mut i: usize = row;
    while i > 0
        invariant
            i <= row < MAX_ROW,
            forall|r: int| 0 <= r <= i ==> #[trigger] rows(*b)[r] == rows(*old(b))[r],
            forall|r: int| i < r <= row ==> #[trigger] rows(*b)[r] == rows(*old(b))[r - 1],
            forall|r: int| row < r < MAX_ROW ==> #[trigger] rows(*b)[r] == rows(*old(b))[r],
        decreases i,
    {
        let ghost prev = *b;
        b[i] = b[i - 1];
        assert(b@ =~= prev@.update(i as int, prev@[i - 1]));
        assert(rows(*b) =~= rows(prev).update(i as int, rows(prev)[i - 1]));
        i -= 1;
    }
    let ghost prev = *b;
    let blank: [u8; MAX_COL] = [0u8; 10];
    assert(blank@ =~= empty_row());
    b[0] = blank;
    assert(b@ =~= prev@.update(0, blank));
    assert(rows(*b) =~= rows(prev).update(0, empty_row()));
    assert(rows(*b) =~= seq![empty_row()] + rows(*old(b)).take(row as int) + rows(*old(b)).skip(
        row as int + 1,
    ));
}

/// Removes every solid row, scanning from the bottom up, and returns how
/// many were removed.
pub fn clear_lines(b: &mut Grid) -> (n: u32)
    ensures
        rows(*final(b)) == after_clear(rows(*old(b))),
        n == solid_count(rows(*old(b))),
        n <= MAX_ROW,
{
    let ghost orig = rows(*b);
    let ghost mut j: int = MAX_ROW as int;
    let mut k: u32 = 0;
    let mut i: usize = MAX_ROW;
    proof {
        assert(orig.take(j) =~= orig);
        assert(orig.skip(j) =~= Seq::<Seq<u8>>::empty());
        assert(rows(*b) =~= empty_rows(0) + orig.take(j) + kept(orig.skip(j)));
    }
    while i > 0
        invariant
            orig == rows(*old(b)),
            orig.len() == MAX_ROW,
            0 <= j <= i <= k + j,
            j > 0 ==> i == k + j,
            k + j + kept(orig.skip(j)).len() == MAX_ROW,
            rows(*b) == empty_rows(k as nat) + orig.take(j) + kept(orig.skip(j)),
        decreases i,
    {
        let row: usize = i - 1;
        while is_solid(b, row)
            invariant
                orig == rows(*old(b)),
                orig.len() == MAX_ROW,
                row + 1 == i,
                0 <= j <= i <= k + j,
                j > 0 ==> i == k + j,
                k + j + kept(orig.skip(j)).len() == MAX_ROW,
                rows(*b) == empty_rows(k as nat) + orig.take(j) + kept(orig.skip(j)),
            decreases j,
        {
            proof {
                if j == 0 {
                    assert(rows(*b)[row as int] == empty_row());
                    assert(!solid(empty_row())) by {
                        assert(empty_row()[0] == 0);
                    }
                }
                assert(rows(*b)[row as int] == orig[j - 1]);
                assert(orig.skip(j - 1).drop_first() =~= orig.skip(j));
                assert(orig.skip(j - 1)[0] == orig[j - 1]);
            }
            let ghost before = rows(*b);
            collapse_row(b, row);
            proof {
                j = j - 1;
                assert(rows(*b) =~= empty_rows((k + 1) as nat) + orig.take(j) + kept(orig.skip(j)));
            }
            k += 1;
        }
        proof {
            if j > 0 {
                assert(rows(*b)[row as int] == orig[j - 1]);
                assert(orig.skip(j - 1).drop_first() =~= orig.skip(j));
                assert(orig.skip(j - 1)[0] == orig[j - 1]);
                j = j - 1;
                assert(rows(*b) =~= empty_rows(k as nat) + orig.take(j) + kept(orig.skip(j)));
            }
        }
        i -= 1;
    }
    proof {
        assert(orig.take(0) =~= Seq::<Seq<u8>>::empty());
        assert(orig.skip(0) =~= orig);
        assert(rows(*b) =~= after_clear(orig));
    }
    k
}

} // verus!
