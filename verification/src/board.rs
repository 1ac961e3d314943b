//! The fixed-size occupancy grid: cell state, locking writes, row-full
//! detection and the cascading row clear.

use vstd::prelude::*;
use crate::{GRID_HEIGHT, GRID_WIDTH};

verus! {

/// The cell value that marks an empty cell; an occupied cell holds the color
/// index of the piece that locked there.
pub const EMPTY_CELL: i8 = -1;

/// A full row: every column occupied.
pub open spec fn row_full(g: Seq<Seq<i8>>, y: int) -> bool {
    forall|x: int| 0 <= x < GRID_WIDTH ==> #[trigger] g[y][x] != EMPTY_CELL
}

/// A row with every cell empty.
pub open spec fn empty_row() -> Seq<i8> {
    Seq::new(GRID_WIDTH as nat, |x: int| EMPTY_CELL)
}

/// The grid after one shift at row `r`: rows 1..=r take the row above them,
/// so the slot of row `r` is overwritten; rows beyond `r` keep their
/// content, and the vacated top row becomes empty.
pub open spec fn shift_down(g: Seq<Seq<i8>>, r: int) -> Seq<Seq<i8>> {
    Seq::new(
        g.len(),
        |y: int|
            if y == 0 {
                empty_row()
            } else if y <= r {
                g[y - 1]
            } else {
                g[y]
            },
    )
}

/// One scan step at row `y`: a full row is shifted away, any other row
/// leaves the grid as it is.
pub open spec fn clear_step(g: Seq<Seq<i8>>, y: int) -> Seq<Seq<i8>> {
    if row_full(g, y) {
        shift_down(g, y)
    } else {
        g
    }
}

/// The grid after scanning rows `y` and below in one pass, top to bottom,
/// shifting at each full row found. The scan continues on the shifted grid,
/// which agrees with identifying all full rows first: a shift at row `y`
/// never touches the rows below `y`.
pub open spec fn cleared_grid_from(g: Seq<Seq<i8>>, y: int) -> Seq<Seq<i8>>
    decreases GRID_HEIGHT - y,
{
    if y < 0 || y >= GRID_HEIGHT {
        g
    } else {
        cleared_grid_from(clear_step(g, y), y + 1)
    }
}

/// How many full rows the same scan finds from row `y` down.
pub open spec fn cleared_count_from(g: Seq<Seq<i8>>, y: int) -> int
    decreases GRID_HEIGHT - y,
{
    if y < 0 || y >= GRID_HEIGHT {
        0
    } else {
        (if row_full(g, y) {
            1int
        } else {
            0int
        }) + cleared_count_from(clear_step(g, y), y + 1)
    }
}

/// Shape and content invariant of a grid: exactly the playing-field
/// dimensions, and every cell holds either the empty marker or a color
/// index.
pub open spec fn grid_wf(g: Seq<Seq<i8>>) -> bool {
    &&& g.len() == GRID_HEIGHT
    &&& forall|y: int| 0 <= y < GRID_HEIGHT ==> (#[trigger] g[y]).len() == GRID_WIDTH
    &&& forall|y: int, x: int|
        0 <= y < GRID_HEIGHT && 0 <= x < GRID_WIDTH ==> EMPTY_CELL <= #[trigger] g[y][x] < 7
}

/// The occupancy matrix of the playing field.
pub struct Board {
    rows: Vec<Vec<i8>>,
}

impl Board {
    /// The board as a sequence of rows, each a sequence of cell values.
    pub closed spec fn grid(self) -> Seq<Seq<i8>> {
        Seq::new(self.rows@.len() as nat, |y: int| self.rows@[y]@)
    }

    /// The board's own invariant: its grid is well-formed.
    pub open spec fn wf(self) -> bool {
        grid_wf(self.grid())
    }

    /// The value of one cell.
    pub open spec fn cell_spec(self, x: int, y: int) -> i8 {
        self.grid()[y][x]
    }

    /// Whether a locked piece occupies the cell.
    pub open spec fn occupied(self, x: int, y: int) -> bool {
        self.cell_spec(x, y) != EMPTY_CELL
    }

    /// An entirely empty board.
    pub fn new() -> (r: Board)
        ensures
            r.wf(),
            forall|y: int, x: int|
                0 <= y < GRID_HEIGHT && 0 <= x < GRID_WIDTH ==> #[trigger] r.grid()[y][x]
                    == EMPTY_CELL,
    {
        let mut rows: Vec<Vec<i8>> = Vec::new();
        let mut y: usize = 0;
        while y < GRID_HEIGHT
            invariant
                y <= GRID_HEIGHT,
                rows@.len() == y,
                forall|j: int| 0 <= j < y ==> (#[trigger] rows@[j]@).len() == GRID_WIDTH,
                forall|j: int, x: int|
                    0 <= j < y && 0 <= x < GRID_WIDTH ==> #[trigger] rows@[j]@[x] == EMPTY_CELL,
            decreases GRID_HEIGHT - y,
        {
            let mut row: Vec<i8> = Vec::new();
            let mut x: usize = 0;
            while x < GRID_WIDTH
                invariant
                    x <= GRID_WIDTH,
                    row@.len() == x,
                    forall|k: int| 0 <= k < x ==> #[trigger] row@[k] == EMPTY_CELL,
                decreases GRID_WIDTH - x,
            {
                row.push(EMPTY_CELL);
                x = x + 1;
            }
            rows.push(row);
            y = y + 1;
        }
        let r = Board { rows };
        proof {
            assert forall|yy: int, xx: int|
                0 <= yy < GRID_HEIGHT && 0 <= xx < GRID_WIDTH implies #[trigger] r.grid()[yy][xx]
                == EMPTY_CELL by {
                assert(r.grid()[yy] == r.rows@[yy]@);
            }
        }
        r
    }

    /// The raw value of one cell.
    pub fn cell_at(&self, col: usize, row: usize) -> (r: i8)
        requires
            self.wf(),
            col < GRID_WIDTH,
            row < GRID_HEIGHT,
        ensures
            r == self.cell_spec(col as int, row as int),
    {
        proof {
            assert(self.grid().len() == self.rows@.len());
            assert(self.grid()[row as int] == self.rows@[row as int]@);
        }
        self.rows[row][col]
    }

    /// Whether a locked piece occupies the cell. Out-of-range queries are
    /// ruled out here; the collision rules enforce the bounds.
    pub fn is_occupied(&self, col: usize, row: usize) -> (r: bool)
        requires
            self.wf(),
            col < GRID_WIDTH,
            row < GRID_HEIGHT,
        ensures
            r == self.occupied(col as int, row as int),
    {
        proof {
            assert(self.grid().len() == self.rows@.len());
            assert(self.grid()[row as int] == self.rows@[row as int]@);
        }
        self.rows[row][col] != EMPTY_CELL
    }

    /// Write one cell: the locking step for a single cell of a piece, and
    /// the way scenarios fill a board.
    pub fn set_cell(&mut self, col: usize, row: usize, v: i8)
        requires
            old(self).wf(),
            col < GRID_WIDTH,
            row < GRID_HEIGHT,
            EMPTY_CELL <= v < 7,
        ensures
            final(self).wf(),
            final(self).grid() == old(self).grid().update(
                row as int,
                old(self).grid()[row as int].update(col as int, v),
            ),
    {
        proof {
            assert(self.grid().len() == self.rows@.len());
            assert(self.grid()[row as int] == self.rows@[row as int]@);
        }
        self.rows[row][col] = v;
        proof {
            assert forall|yy: int| 0 <= yy < self.grid().len() implies self.grid()[yy]
                == old(self).grid().update(
                row as int,
                old(self).grid()[row as int].update(col as int, v),
            )[yy] by {
                assert(self.grid()[yy] == self.rows@[yy]@);
                assert(old(self).grid()[yy] == old(self).rows@[yy]@);
                if yy == row as int {
                    assert(self.rows@[yy]@ =~= old(self).rows@[yy]@.update(col as int, v));
                }
            }
            assert(self.grid() =~= old(self).grid().update(
                row as int,
                old(self).grid()[row as int].update(col as int, v),
            ));
        }
    }

    /// Scans the rows top to bottom; each full row is counted and every row
    /// above it shifts down one slot. Returns how many rows were full in
    /// this pass.
    pub fn clear_full_rows(&mut self) -> (n: usize)
        requires
            old(self).wf(),
        ensures
            final(self).wf(),
            final(self).grid() == cleared_grid_from(old(self).grid(), 0),
            n == cleared_count_from(old(self).grid(), 0),
            n <= GRID_HEIGHT,
    {
        let mut n: usize = 0;
        let mut y: usize = 0;
        while y < GRID_HEIGHT
            invariant
                self.wf(),
                y <= GRID_HEIGHT,
                n <= y,
                cleared_grid_from(old(self).grid(), 0) == cleared_grid_from(
                    self.grid(),
                    y as int,
                ),
                cleared_count_from(old(self).grid(), 0) == n + cleared_count_from(
                    self.grid(),
                    y as int,
                ),
            decreases GRID_HEIGHT - y,
        {
            let ghost gbefore = self.grid();
            let mut full = true;
            let mut x: usize = 0;
            while x < GRID_WIDTH
                invariant
                    self.wf(),
                    y < GRID_HEIGHT,
                    x <= GRID_WIDTH,
                    self.grid() == gbefore,
                    full == (forall|x2: int|
                        0 <= x2 < x ==> #[trigger] self.grid()[y as int][x2] != EMPTY_CELL),
                decreases GRID_WIDTH - x,
            {
                proof {
                    assert(self.grid().len() == self.rows@.len());
                    assert(self.grid()[y as int] == self.rows@[y as int]@);
                }
                if self.rows[y][x] == EMPTY_CELL {
                    full = false;
                }
                x = x + 1;
            }
            assert(full == row_full(gbefore, y as int));

            if full {
                n = n + 1;
                let mut i: usize = y;
                while i >= 1
                    invariant
                        self.wf(),
                        i <= y,
                        y < GRID_HEIGHT,
                        forall|r: int| 0 <= r <= i ==> #[trigger] self.grid()[r] == gbefore[r],
                        forall|r: int|
                            i < r <= y ==> #[trigger] self.grid()[r] == gbefore[r - 1],
                        forall|r: int|
                            y < r < GRID_HEIGHT ==> #[trigger] self.grid()[r] == gbefore[r],
                    decreases i,
                {
                    proof {
                        assert(self.grid().len() == self.rows@.len());
                        assert(self.grid()[i - 1] == self.rows@[i - 1]@);
                        assert(self.grid()[i as int] == self.rows@[i as int]@);
                    }
                    let row_copy = copy_row(&self.rows[i - 1]);
                    let ghost gmid = self.grid();
                    self.rows[i] = row_copy;
                    proof {
                        assert(row_copy@ == gmid[i - 1]);
                        assert(gmid[i - 1] == gbefore[i - 1]);
                        assert forall|r: int| 0 <= r < self.grid().len() implies self.grid()[r]
                            == gmid.update(i as int, gbefore[i - 1])[r] by {
                            assert(self.grid()[r] == self.rows@[r]@);
                            if r != i {
                                assert(gmid[r] == self.rows@[r]@);
                            } else {
                                assert(self.rows@[r]@ == row_copy@);
                            }
                        }
                        assert(self.grid() =~= gmid.update(i as int, gbefore[i - 1]));
                    }
                    i = i - 1;
                }
                let fresh = make_empty_row();
                let ghost gshifted = self.grid();
                self.rows[0] = fresh;
                proof {
                    assert(self.grid().len() == self.rows@.len());
                    assert(self.grid().len() == gbefore.len());
                    assert forall|r: int| 0 <= r < self.grid().len() implies self.grid()[r]
                        == shift_down(gbefore, y as int)[r] by {
                        assert(self.grid()[r] == self.rows@[r]@);
                        if r == 0 {
                            assert(self.rows@[0] == fresh);
                            assert(self.rows@[0]@ == empty_row());
                        } else {
                            assert(gshifted[r] == self.rows@[r]@);
                        }
                    }
                    assert(self.grid() =~= shift_down(gbefore, y as int));
                }
            }
            y = y + 1;
        }
        n
    }
}

/// A scan that meets no full row changes nothing and counts nothing.
proof fn lemma_clear_no_full(g: Seq<Seq<i8>>, y: int)
    requires
        forall|r: int| y <= r < GRID_HEIGHT ==> !row_full(g, r),
    ensures
        cleared_grid_from(g, y) == g,
        cleared_count_from(g, y) == 0,
    decreases GRID_HEIGHT - y,
{
    if 0 <= y < GRID_HEIGHT {
        assert(clear_step(g, y) == g);
        lemma_clear_no_full(g, y + 1);
    }
}

/// A scan from `y` on a grid whose only full row at `y` or below is `r`
/// shifts once at `r` and counts one row.
proof fn lemma_clear_single_from(g: Seq<Seq<i8>>, r: int, y: int)
    requires
        g.len() == GRID_HEIGHT,
        0 <= y <= r < GRID_HEIGHT,
        row_full(g, r),
        forall|k: int| y <= k < GRID_HEIGHT && k != r ==> !row_full(g, k),
    ensures
        cleared_count_from(g, y) == 1,
        cleared_grid_from(g, y) == shift_down(g, r),
    decreases r - y,
{
    if y == r {
        let g2 = shift_down(g, r);
        assert forall|k: int| r + 1 <= k < GRID_HEIGHT implies !row_full(g2, k) by {
            assert(g2[k] == g[k]);
            if row_full(g2, k) {
                assert forall|x: int| 0 <= x < GRID_WIDTH implies g[k][x] != EMPTY_CELL by {
                    assert(g2[k][x] != EMPTY_CELL);
                }
                assert(row_full(g, k));
            }
        }
        lemma_clear_no_full(g2, r + 1);
    } else {
        assert(clear_step(g, y) == g);
        lemma_clear_single_from(g, r, y + 1);
    }
}

/// Law: a pass over a board with no full row clears nothing and leaves every
/// cell exactly as it was.
pub proof fn lemma_clear_rows_no_full_row(g: Seq<Seq<i8>>)
    requires
        forall|r: int| 0 <= r < GRID_HEIGHT ==> !row_full(g, r),
    ensures
        cleared_count_from(g, 0) == 0,
        cleared_grid_from(g, 0) == g,
{
    lemma_clear_no_full(g, 0);
}

/// Law: a pass over a board whose only full row is `r` clears exactly one
/// row; every row above `r` shifts down one slot, the rows below `r` stay,
/// and the top row is empty afterwards.
pub proof fn lemma_clear_rows_single_full_row(g: Seq<Seq<i8>>, r: int)
    requires
        g.len() == GRID_HEIGHT,
        0 <= r < GRID_HEIGHT,
        row_full(g, r),
        forall|k: int| 0 <= k < GRID_HEIGHT && k != r ==> !row_full(g, k),
    ensures
        cleared_count_from(g, 0) == 1,
        forall|y: int| 1 <= y <= r ==> cleared_grid_from(g, 0)[y] == g[y - 1],
        forall|y: int| r < y < GRID_HEIGHT ==> cleared_grid_from(g, 0)[y] == g[y],
        forall|x: int| 0 <= x < GRID_WIDTH ==> cleared_grid_from(g, 0)[0][x] == EMPTY_CELL,
{
    lemma_clear_single_from(g, r, 0);
    assert(cleared_grid_from(g, 0)[0] == empty_row());
}

/// A fresh all-empty row.
fn make_empty_row() -> (r: Vec<i8>)
    ensures
        r@ == empty_row(),
{
    let mut r: Vec<i8> = Vec::new();
    let mut x: usize = 0;
    while x < GRID_WIDTH
        invariant
            x <= GRID_WIDTH,
            r@.len() == x,
            forall|k: int| 0 <= k < x ==> #[trigger] r@[k] == EMPTY_CELL,
        decreases GRID_WIDTH - x,
    {
        r.push(EMPTY_CELL);
        x = x + 1;
    }
    proof {
        assert(r@ =~= empty_row());
    }
    r
}

/// A fresh vector with the same cell values as the given row.
fn copy_row(src: &Vec<i8>) -> (r: Vec<i8>)
    ensures
        r@ == src@,
{
    let mut r: Vec<i8> = Vec::new();
    let mut x: usize = 0;
    while x < src.len()
        invariant
            x <= src@.len(),
            r@.len() == x,
            forall|k: int| 0 <= k < x ==> #[trigger] r@[k] == src@[k],
        decreases src@.len() - x,
    {
        r.push(src[x]);
        x = x + 1;
    }
    proof {
        assert(r@ =~= src@);
    }
    r
}

} // verus!
