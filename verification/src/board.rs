//! The settled board: collision testing, row locking and line clearing.

use vstd::prelude::*;

use crate::kind::BlockType;
use crate::piece::ActivePiece;
use crate::piece::lemma_piece_cells_bounds;
use crate::piece::piece_cells;

verus! {

/// Board width in cells.
pub const BOARD_WIDTH: usize = 10;

/// Board height in cells.
pub const BOARD_HEIGHT: usize = 20;

/// The mathematical view of a board: twenty rows of ten cells.
pub type GridView = Seq<Seq<Option<BlockType>>>;

/// A well-formed grid has exactly twenty rows of ten cells each.
pub open spec fn grid_wf(g: GridView) -> bool {
    &&& g.len() == 20
    &&& forall|y: int| 0 <= y < 20 ==> (#[trigger] g[y]).len() == 10
}

/// Whether board position `(x, y)` blocks a piece cell: outside the side
/// walls, at or past the floor, or (once inside the visible rows) already
/// settled.  Cells above the visible rows (`y < 0`) only collide with the
/// side walls.
pub open spec fn cell_blocked(g: GridView, x: int, y: int) -> bool {
    ||| x < 0
    ||| x >= 10
    ||| y >= 20
    ||| (y >= 0 && g[y][x] is Some)
}

/// Whether the piece, translated by `(dx, dy)`, would overlap a wall, the
/// floor, or a settled cell.
pub open spec fn collides(g: GridView, p: ActivePiece, dx: int, dy: int) -> bool {
    exists|i: int|
        0 <= i < piece_cells(p).len() && cell_blocked(
            g,
            (#[trigger] piece_cells(p)[i]).0 + dx,
            piece_cells(p)[i].1 + dy,
        )
}

/// A row is full when all ten of its cells are settled.
pub open spec fn row_full(r: Seq<Option<BlockType>>) -> bool {
    forall|x: int| 0 <= x < 10 ==> (#[trigger] r[x]) is Some
}

/// A row with no settled cells.
pub open spec fn empty_row() -> Seq<Option<BlockType>> {
    Seq::new(10, |x: int| None)
}

/// A grid with no settled cells.
pub open spec fn empty_grid() -> GridView {
    Seq::new(20, |y: int| empty_row())
}

/// How many rows of the grid are full.
pub open spec fn num_full(g: GridView) -> nat
    decreases g.len(),
{
    if g.len() == 0 {
        0
    } else {
        num_full(g.drop_last()) + if row_full(g.last()) {
            1nat
        } else {
            0nat
        }
    }
}

/// The non-full rows of the grid, in their original top-to-bottom order.
pub open spec fn kept_rows(g: GridView) -> GridView
    decreases g.len(),
{
    if g.len() == 0 {
        Seq::empty()
    } else if row_full(g.last()) {
        kept_rows(g.drop_last())
    } else {
        kept_rows(g.drop_last()).push(g.last())
    }
}

/// The grid after clearing: every full row removed, the non-full rows
/// shifted to the bottom in their original order, and as many empty rows
/// reinserted at the top.
pub open spec fn cleared(g: GridView) -> GridView {
    Seq::new(num_full(g), |i: int| empty_row()) + kept_rows(g)
}

/// The grid after writing `k` into every listed cell that lies on the
/// board; listed cells outside the board are dropped.
pub open spec fn place(g: GridView, k: BlockType, cs: Seq<(int, int)>) -> GridView {
    Seq::new(
        20,
        |y: int|
            Seq::new(
                10,
                |x: int|
                    if cs.contains((x, y)) {
                        Some(k)
                    } else {
                        g[y][x]
                    },
            ),
    )
}

/// The integer view of a list of machine-integer cells.
pub open spec fn cells_ints(s: Seq<(i32, i32)>) -> Seq<(int, int)> {
    s.map_values(|c: (i32, i32)| (c.0 as int, c.1 as int))
}

/// The fixed 10x20 grid of settled cells.
pub struct Board {
    pub rows: Vec<Vec<Option<BlockType>>>,
}

/// Build one empty row.
fn make_empty_row() -> (r: Vec<Option<BlockType>>)
    ensures
        r@ == empty_row(),
{
    let mut r: Vec<Option<BlockType>> = Vec::new();
    let mut x: usize = 0;
    while x < 10
        invariant
            x <= 10,
            r@.len() == x,
            forall|j: int| 0 <= j < x ==> (#[trigger] r@[j]) is None,
        decreases 10 - x,
    {
        r.push(None);
        x = x + 1;
    }
    proof {
        assert(r@ =~= empty_row());
    }
    r
}

/// Whether every cell of the row is settled.
fn row_is_full(row: &Vec<Option<BlockType>>) -> (full: bool)
    requires
        row@.len() == 10,
    ensures
        full == row_full(row@),
{
    let mut x: usize = 0;
    while x < 10
        invariant
            x <= 10,
            row@.len() == 10,
            forall|j: int| 0 <= j < x ==> (#[trigger] row@[j]) is Some,
        decreases 10 - x,
    {
        if row[x].is_none() {
            return false;
        }
        x = x + 1;
    }
    true
}

/// Copy one row cell by cell.
fn copy_row(row: &Vec<Option<BlockType>>) -> (out: Vec<Option<BlockType>>)
    requires
        row@.len() == 10,
    ensures
        out@ == row@,
{
    let mut out: Vec<Option<BlockType>> = Vec::new();
    let mut x: usize = 0;
    while x < 10
        invariant
            x <= 10,
            row@.len() == 10,
            out@.len() == x,
            forall|j: int| 0 <= j < x ==> #[trigger] out@[j] == row@[j],
        decreases 10 - x,
    {
        out.push(row[x]);
        x = x + 1;
    }
    proof {
        assert(out@ =~= row@);
    }
    out
}

impl Board {
    /// The grid of settled cells, row by row.
    pub open spec fn grid(&self) -> GridView {
        self.rows@.map_values(|r: Vec<Option<BlockType>>| r@)
    }

    /// The board always holds twenty rows of ten cells.
    pub open spec fn wf(&self) -> bool {
        grid_wf(self.grid())
    }

    /// An empty board.
    pub fn new() -> (b: Board)
        ensures
            b.wf(),
            b.grid() == empty_grid(),
    {
        let mut rows: Vec<Vec<Option<BlockType>>> = Vec::new();
        let mut y: usize = 0;
        while y < 20
            invariant
                y <= 20,
                rows@.len() == y,
                forall|j: int| 0 <= j < y ==> (#[trigger] rows@[j])@ == empty_row(),
            decreases 20 - y,
        {
            rows.push(make_empty_row());
            y = y + 1;
        }
        let b = Board { rows };
        proof {
            assert(b.grid() =~= empty_grid());
        }
        b
    }

    /// Whether the piece, shifted by `(dx, dy)`, would leave the side
    /// walls, reach the floor, or overlap a settled cell.
    pub fn check_collision(&self, piece: &ActivePiece, dx: i32, dy: i32) -> (r: bool)
        requires
            self.wf(),
            piece.wf(),
            -2 <= dx <= 2,
            -2 <= dy <= 2,
        ensures
            r == collides(self.grid(), *piece, dx as int, dy as int),
    {
        proof {
            lemma_piece_cells_bounds(*piece);
        }
        let cs = piece.cells();
        let mut i: usize = 0;
        while i < cs.len()
            invariant
                self.wf(),
                piece.wf(),
                -2 <= dx <= 2,
                -2 <= dy <= 2,
                cs@.len() == 4,
                piece_cells(*piece).len() == 4,
                forall|j: int|
                    0 <= j < 4 ==> (#[trigger] cs@[j].0 as int, cs@[j].1 as int) == piece_cells(
                        *piece,
                    )[j],
                forall|j: int|
                    0 <= j < 4 ==> piece.x <= (#[trigger] piece_cells(*piece)[j]).0 <= piece.x + 3
                        && piece.y <= piece_cells(*piece)[j].1 <= piece.y + 3,
                i <= 4,
                forall|j: int|
                    0 <= j < i ==> !cell_blocked(
                        self.grid(),
                        (#[trigger] piece_cells(*piece)[j]).0 + dx,
                        piece_cells(*piece)[j].1 + dy,
                    ),
            decreases 4 - i,
        {
            let cx = cs[i].0 + dx;
            let cy = cs[i].1 + dy;
            if cx < 0 || cx >= BOARD_WIDTH as i32 {
                return true;
            }
            if cy >= BOARD_HEIGHT as i32 {
                return true;
            }
            if cy >= 0 {
                proof {
                    assert(self.grid().len() == self.rows@.len());
                    assert(self.grid()[cy as int] == self.rows@[cy as int]@);
                }
                if self.rows[cy as usize][cx as usize].is_some() {
                    return true;
                }
            }
            i = i + 1;
        }
        false
    }

    /// Write `kind` into every listed cell that lies on the board; cells
    /// still above the visible rows are dropped.
    pub fn lock(&mut self, kind: BlockType, cells: &Vec<(i32, i32)>)
        requires
            old(self).wf(),
        ensures
            final(self).wf(),
            final(self).grid() == place(old(self).grid(), kind, cells_ints(cells@)),
    {
        let ghost g0 = self.grid();
        let mut i: usize = 0;
        while i < cells.len()
            invariant
                grid_wf(self.grid()),
                grid_wf(g0),
                i <= cells@.len(),
                forall|x: int, y: int|
                    0 <= x < 10 && 0 <= y < 20 ==> #[trigger] self.grid()[y][x] == (if cells_ints(
                        cells@.take(i as int),
                    ).contains((x, y)) {
                        Some(kind)
                    } else {
                        g0[y][x]
                    }),
            decreases cells@.len() - i,
        {
            let ghost gp = self.grid();
            let ghost taken = cells_ints(cells@.take(i as int));
            let c = cells[i];
            let ghost ci = (c.0 as int, c.1 as int);
            if c.0 >= 0 && c.0 < BOARD_WIDTH as i32 && c.1 >= 0 && c.1 < BOARD_HEIGHT as i32 {
                let xi = c.0 as usize;
                let yi = c.1 as usize;
                proof {
                    assert(self.grid().len() == self.rows@.len());
                    assert(self.grid()[yi as int] == self.rows@[yi as int]@);
                }
                self.rows[yi][xi] = Some(kind);
                proof {
                    assert(self.grid()[yi as int] == self.rows@[yi as int]@);
                    assert(forall|y: int|
                        0 <= y < 20 && y != yi as int ==> #[trigger] self.grid()[y] == gp[y]);
                }
            }
            proof {
                assert(cells@.take(i as int + 1) =~= cells@.take(i as int).push(c));
                assert(cells_ints(cells@.take(i as int + 1)) =~= taken.push(ci));
                assert forall|v: (int, int)| #[trigger] taken.push(ci).contains(v) implies (
                taken.contains(v) || v == ci) by {
                    let kk = choose|kk: int|
                        0 <= kk < taken.push(ci).len() && taken.push(ci)[kk] == v;
                    if kk < taken.len() {
                        assert(taken[kk] == v);
                    }
                }
                assert forall|v: (int, int)| taken.contains(v) || v == ci implies #[trigger] taken
                    .push(ci).contains(v) by {
                    if taken.contains(v) {
                        let kk = choose|kk: int| 0 <= kk < taken.len() && taken[kk] == v;
                        assert(taken.push(ci)[kk] == v);
                    } else {
                        assert(taken.push(ci)[taken.len() as int] == v);
                    }
                }
                assert forall|x: int, y: int| 0 <= x < 10 && 0 <= y < 20 implies #[trigger] self
                    .grid()[y][x] == (if cells_ints(cells@.take(i as int + 1)).contains((x, y)) {
                    Some(kind)
                } else {
                    g0[y][x]
                }) by {
                    assert(self.grid()[y] == self.rows@[y]@);
                    if (x, y) != ci {
                        assert(self.grid()[y][x] == gp[y][x]);
                    }
                }
            }
            i = i + 1;
        }
        proof {
            assert(cells@.take(cells@.len() as int) =~= cells@);
            assert(self.grid() =~~= place(g0, kind, cells_ints(cells@)));
        }
    }

    /// Remove every full row, shift the rows above down in order, and
    /// refill the top with empty rows; returns how many rows were removed.
    pub fn clear_full_lines(&mut self) -> (removed: usize)
        requires
            old(self).wf(),
        ensures
            final(self).wf(),
            removed == num_full(old(self).grid()),
            removed <= 20,
            final(self).grid() == cleared(old(self).grid()),
    {
        let ghost g0 = self.grid();
        let mut removed: usize = 0;
        let mut y: usize = 0;
        while y < 20
            invariant
                self.wf(),
                self.grid() == g0,
                y <= 20,
                removed <= y,
                removed == num_full(g0.take(y as int)),
            decreases 20 - y,
        {
            proof {
                assert(self.grid().len() == self.rows@.len());
                assert(self.grid()[y as int] == self.rows@[y as int]@);
            }
            let full = row_is_full(&self.rows[y]);
            proof {
                assert(g0.take(y as int + 1).drop_last() =~= g0.take(y as int));
                assert(g0.take(y as int + 1).last() == g0[y as int]);
                assert(g0[y as int] == self.rows@[y as int]@);
            }
            if full {
                removed = removed + 1;
            }
            y = y + 1;
        }
        proof {
            assert(g0.take(20) =~= g0);
        }
        let mut new_rows: Vec<Vec<Option<BlockType>>> = Vec::new();
        let mut i: usize = 0;
        while i < removed
            invariant
                i <= removed,
                removed <= 20,
                new_rows@.len() == i,
                forall|j: int| 0 <= j < i ==> (#[trigger] new_rows@[j])@ == empty_row(),
            decreases removed - i,
        {
            new_rows.push(make_empty_row());
            i = i + 1;
        }
        let mut y: usize = 0;
        while y < 20
            invariant
                self.wf(),
                self.grid() == g0,
                y <= 20,
                removed == num_full(g0),
                removed <= 20,
                new_rows@.len() == removed + kept_rows(g0.take(y as int)).len(),
                forall|j: int| 0 <= j < removed ==> (#[trigger] new_rows@[j])@ == empty_row(),
                forall|j: int|
                    removed <= j < new_rows@.len() ==> (#[trigger] new_rows@[j])@ == kept_rows(
                        g0.take(y as int),
                    )[j - removed],
            decreases 20 - y,
        {
            proof {
                assert(self.grid().len() == self.rows@.len());
                assert(self.grid()[y as int] == self.rows@[y as int]@);
            }
            let full = row_is_full(&self.rows[y]);
            proof {
                assert(g0.take(y as int + 1).drop_last() =~= g0.take(y as int));
                assert(g0.take(y as int + 1).last() == g0[y as int]);
                assert(g0[y as int] == self.rows@[y as int]@);
            }
            if !full {
                let r = copy_row(&self.rows[y]);
                new_rows.push(r);
                proof {
                    assert(kept_rows(g0.take(y as int + 1)) == kept_rows(g0.take(y as int)).push(
                        g0[y as int],
                    ));
                }
            } else {
                proof {
                    assert(kept_rows(g0.take(y as int + 1)) == kept_rows(g0.take(y as int)));
                }
            }
            y = y + 1;
        }
        self.rows = new_rows;
        proof {
            assert(g0.take(20) =~= g0);
            lemma_kept_len(g0);
            lemma_kept_rows_wf(g0);
            assert forall|j: int| 0 <= j < 20 implies #[trigger] self.grid()[j] == cleared(g0)[
            j] by {
                assert(self.grid()[j] == self.rows@[j]@);
                if j < removed {
                    assert(cleared(g0)[j] == empty_row());
                } else {
                    assert(cleared(g0)[j] == kept_rows(g0)[j - removed]);
                }
            }
            assert(self.grid() =~= cleared(g0));
        }
        removed
    }
}

/// Every kept row is a row of the grid, so it keeps its ten cells.
pub proof fn lemma_kept_rows_wf(g: GridView)
    requires
        forall|y: int| 0 <= y < g.len() ==> (#[trigger] g[y]).len() == 10,
    ensures
        forall|j: int| 0 <= j < kept_rows(g).len() ==> (#[trigger] kept_rows(g)[j]).len() == 10,
    decreases g.len(),
{
    if g.len() > 0 {
        assert forall|y: int| 0 <= y < g.drop_last().len() implies (#[trigger] g.drop_last()[
        y]).len() == 10 by {
            assert(g.drop_last()[y] == g[y]);
        }
        lemma_kept_rows_wf(g.drop_last());
        if !row_full(g.last()) {
            let kd = kept_rows(g.drop_last());
            assert(g[g.len() - 1].len() == 10);
            assert(kept_rows(g) == kd.push(g.last()));
            assert forall|j: int| 0 <= j < kept_rows(g).len() implies (#[trigger] kept_rows(g)[
            j]).len() == 10 by {
                if j < kd.len() {
                    assert(kept_rows(g)[j] == kd[j]);
                } else {
                    assert(kept_rows(g)[j] == g.last());
                }
            }
        }
    }
}

/// Clearing removes exactly the full rows: the kept rows and the full
/// rows together account for every row.
pub proof fn lemma_kept_len(g: GridView)
    ensures
        kept_rows(g).len() + num_full(g) == g.len(),
    decreases g.len(),
{
    if g.len() > 0 {
        lemma_kept_len(g.drop_last());
    }
}

/// How many settled cells a row holds.
pub open spec fn count_row(r: Seq<Option<BlockType>>) -> nat
    decreases r.len(),
{
    if r.len() == 0 {
        0
    } else {
        count_row(r.drop_last()) + if r.last() is Some {
            1nat
        } else {
            0nat
        }
    }
}

/// How many settled cells the grid holds.
pub open spec fn count_grid(g: GridView) -> nat
    decreases g.len(),
{
    if g.len() == 0 {
        0
    } else {
        count_grid(g.drop_last()) + count_row(g.last())
    }
}

proof fn lemma_count_grid_push(s: GridView, r: Seq<Option<BlockType>>)
    ensures
        count_grid(s.push(r)) == count_grid(s) + count_row(r),
{
    assert(s.push(r).drop_last() =~= s);
    assert(s.push(r).last() == r);
}

proof fn lemma_all_some_count(r: Seq<Option<BlockType>>)
    requires
        forall|x: int| 0 <= x < r.len() ==> (#[trigger] r[x]) is Some,
    ensures
        count_row(r) == r.len(),
    decreases r.len(),
{
    if r.len() > 0 {
        assert forall|x: int| 0 <= x < r.drop_last().len() implies (#[trigger] r.drop_last()[
        x]) is Some by {
            assert(r.drop_last()[x] == r[x]);
        }
        lemma_all_some_count(r.drop_last());
    }
}

proof fn lemma_all_none_count(r: Seq<Option<BlockType>>)
    requires
        forall|x: int| 0 <= x < r.len() ==> (#[trigger] r[x]) is None,
    ensures
        count_row(r) == 0,
    decreases r.len(),
{
    if r.len() > 0 {
        assert forall|x: int| 0 <= x < r.drop_last().len() implies (#[trigger] r.drop_last()[
        x]) is None by {
            assert(r.drop_last()[x] == r[x]);
        }
        lemma_all_none_count(r.drop_last());
    }
}

proof fn lemma_count_concat(a: GridView, b: GridView)
    ensures
        count_grid(a + b) == count_grid(a) + count_grid(b),
    decreases b.len(),
{
    if b.len() == 0 {
        assert(a + b =~= a);
    } else {
        assert((a + b).drop_last() =~= a + b.drop_last());
        assert((a + b).last() == b.last());
        lemma_count_concat(a, b.drop_last());
    }
}

proof fn lemma_empties_count(k: nat)
    ensures
        count_grid(Seq::new(k, |i: int| empty_row())) == 0,
    decreases k,
{
    let s = Seq::new(k, |i: int| empty_row());
    if k > 0 {
        assert(s.drop_last() =~= Seq::new((k - 1) as nat, |i: int| empty_row()));
        lemma_empties_count((k - 1) as nat);
        lemma_all_none_count(empty_row());
    }
}

proof fn lemma_kept_count(g: GridView)
    requires
        forall|y: int| 0 <= y < g.len() ==> (#[trigger] g[y]).len() == 10,
    ensures
        count_grid(kept_rows(g)) + 10 * num_full(g) == count_grid(g),
    decreases g.len(),
{
    if g.len() > 0 {
        assert forall|y: int| 0 <= y < g.drop_last().len() implies (#[trigger] g.drop_last()[
        y]).len() == 10 by {
            assert(g.drop_last()[y] == g[y]);
        }
        lemma_kept_count(g.drop_last());
        if row_full(g.last()) {
            assert(g[g.len() - 1].len() == 10);
            lemma_all_some_count(g.last());
        } else {
            lemma_count_grid_push(kept_rows(g.drop_last()), g.last());
        }
    }
}

/// Law: line clearing removes exactly the cells of the full rows — ten
/// per removed row — and no others; together with the `clear_full_lines`
/// contract, which keeps the non-full rows exactly and in order, the
/// settled-cell count drops by exactly ten per removed row.
pub proof fn lemma_clear_preserves_cell_count(g: GridView)
    requires
        grid_wf(g),
    ensures
        count_grid(cleared(g)) + 10 * num_full(g) == count_grid(g),
{
    lemma_empties_count(num_full(g));
    lemma_count_concat(Seq::new(num_full(g), |i: int| empty_row()), kept_rows(g));
    lemma_kept_count(g);
}

proof fn lemma_count_row_update(r: Seq<Option<BlockType>>, x: int, k: BlockType)
    requires
        0 <= x < r.len(),
        r[x] is None,
    ensures
        count_row(r.update(x, Some(k))) == count_row(r) + 1,
    decreases r.len(),
{
    let u = r.update(x, Some(k));
    if x == r.len() - 1 {
        assert(u.drop_last() =~= r.drop_last());
        assert(u.last() == Some(k));
        assert(r.last() is None);
    } else {
        assert(u.drop_last() =~= r.drop_last().update(x, Some(k)));
        assert(u.last() == r.last());
        lemma_count_row_update(r.drop_last(), x, k);
    }
}

proof fn lemma_count_grid_update(g: GridView, x: int, y: int, k: BlockType)
    requires
        0 <= y < g.len(),
        0 <= x < g[y].len(),
        g[y][x] is None,
    ensures
        count_grid(g.update(y, g[y].update(x, Some(k)))) == count_grid(g) + 1,
    decreases g.len(),
{
    let u = g.update(y, g[y].update(x, Some(k)));
    if y == g.len() - 1 {
        assert(u.drop_last() =~= g.drop_last());
        assert(u.last() == g.last().update(x, Some(k)));
        lemma_count_row_update(g.last(), x, k);
    } else {
        assert(u.drop_last() =~= g.drop_last().update(y, g[y].update(x, Some(k))));
        assert(u.last() == g.last());
        assert(g.drop_last()[y] == g[y]);
        lemma_count_grid_update(g.drop_last(), x, y, k);
    }
}

proof fn lemma_place_count(g: GridView, k: BlockType, cs: Seq<(int, int)>)
    requires
        grid_wf(g),
        forall|i: int, j: int| 0 <= i < j < cs.len() ==> cs[i] != cs[j],
        forall|i: int| 0 <= i < cs.len() ==> 0 <= (#[trigger] cs[i]).0 < 10 && 0 <= cs[i].1 < 20,
        forall|i: int| 0 <= i < cs.len() ==> g[(#[trigger] cs[i]).1][cs[i].0] is None,
    ensures
        count_grid(place(g, k, cs)) == count_grid(g) + cs.len(),
    decreases cs.len(),
{
    if cs.len() == 0 {
        assert(place(g, k, cs) =~~= g);
    } else {
        let cs0 = cs.drop_last();
        let c = cs.last();
        assert(forall|i: int| 0 <= i < cs0.len() ==> cs0[i] == cs[i]);
        lemma_place_count(g, k, cs0);
        let p0 = place(g, k, cs0);
        assert(!cs0.contains(c)) by {
            if cs0.contains(c) {
                let i = choose|i: int| 0 <= i < cs0.len() && cs0[i] == c;
                assert(cs[i] != cs[cs.len() - 1]);
            }
        }
        assert forall|v: (int, int)| #[trigger] cs.contains(v) implies (cs0.contains(v) || v
            == c) by {
            let i = choose|i: int| 0 <= i < cs.len() && cs[i] == v;
            if i < cs0.len() {
                assert(cs0[i] == v);
            }
        }
        assert forall|v: (int, int)| cs0.contains(v) || v == c implies #[trigger] cs.contains(
        v) by {
            if cs0.contains(v) {
                let i = choose|i: int| 0 <= i < cs0.len() && cs0[i] == v;
                assert(cs[i] == v);
            } else {
                assert(cs[cs.len() - 1] == v);
            }
        }
        assert(p0[c.1][c.0] is None);
        let u = p0.update(c.1, p0[c.1].update(c.0, Some(k)));
        assert(place(g, k, cs) =~~= u);
        lemma_count_grid_update(p0, c.0, c.1, k);
    }
}

/// A committed translation keeps every cell inside the side walls and
/// above the floor, which pins the piece position itself.
pub proof fn lemma_committed_bounds(g: GridView, p: ActivePiece, dx: int, dy: int)
    requires
        p.wf(),
        !collides(g, p, dx, dy),
    ensures
        -3 <= p.x + dx <= 9,
        p.y + dy <= 19,
{
    lemma_piece_cells_bounds(p);
    let cs = piece_cells(p);
    assert(!cell_blocked(g, cs[0].0 + dx, cs[0].1 + dy));
}

/// An upward kick is only ever committed from a position whose rotated
/// cells already reach the visible rows: if the piece collides in place
/// but not one row up, the blockage was not a side wall, so some cell
/// sits at `y >= 0` or past the floor, which pins `p.y >= -3`.
pub proof fn lemma_kick_up_bound(g: GridView, p: ActivePiece)
    requires
        p.wf(),
        collides(g, p, 0, 0),
        !collides(g, p, 0, -1),
    ensures
        p.y >= -3,
{
    lemma_piece_cells_bounds(p);
    let cs = piece_cells(p);
    let i = choose|i: int|
        0 <= i < cs.len() && cell_blocked(g, (#[trigger] cs[i]).0 + 0, cs[i].1 + 0);
    if cs[i].0 < 0 || cs[i].0 >= 10 {
        assert(cell_blocked(g, cs[i].0 + 0, cs[i].1 + (-1)));
    } else {
        assert(cs[i].1 >= 0);
        assert(p.y >= cs[i].1 - 3);
    }
}

/// Law: locking a piece whose four cells all sit on the visible board,
/// with no overlap with settled cells, adds exactly four settled cells.
pub proof fn lemma_lock_adds_piece_cells(g: GridView, p: ActivePiece, k: BlockType)
    requires
        grid_wf(g),
        p.wf(),
        !collides(g, p, 0, 0),
        forall|i: int| 0 <= i < piece_cells(p).len() ==> (#[trigger] piece_cells(p)[i]).1 >= 0,
    ensures
        count_grid(place(g, k, piece_cells(p))) == count_grid(g) + 4,
{
    lemma_piece_cells_bounds(p);
    let cs = piece_cells(p);
    assert forall|i: int| 0 <= i < cs.len() implies 0 <= (#[trigger] cs[i]).0 < 10 && 0 <= cs[i].1
        < 20 && g[cs[i].1][cs[i].0] is None by {
        assert(!cell_blocked(g, cs[i].0 + 0, cs[i].1 + 0));
    }
    lemma_place_count(g, k, cs);
}

} // verus!
