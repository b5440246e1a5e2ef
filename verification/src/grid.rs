//! The mathematical model of a universe: a `Grid` of cells with toroidal
//! neighbor counting, the B3/S23 transition rule, and the arithmetic lemmas
//! about row-major indexing that the executable code relies on.

use vstd::prelude::*;
use vstd::arithmetic::div_mod::{
    lemma_fundamental_div_mod, lemma_fundamental_div_mod_converse,
    lemma_mod_division_less_than_divisor, lemma_mod_self_0, lemma_small_mod,
};
use vstd::arithmetic::mul::lemma_mul_inequality;
use crate::cell::{spec_cell_value, spec_flip, Cell};

verus! {

/// Mathematical model of a universe: the dimensions and the flat,
/// row-major sequence of cells.
#[verifier::ext_equal]
pub struct Grid {
    pub width: int,
    pub height: int,
    pub cells: Seq<Cell>,
}

impl Grid {
    /// The dimension invariant: the cell sequence holds exactly
    /// `width * height` entries, and that product is addressable by `u32`.
    pub open spec fn wf(self) -> bool {
        &&& 0 <= self.width
        &&& 0 <= self.height
        &&& self.width * self.height <= u32::MAX
        &&& self.cells.len() == self.width * self.height
    }

    /// Flat index of `(row, col)` in row-major order.
    pub open spec fn idx(self, row: int, col: int) -> int {
        row * self.width + col
    }

    /// Cell at the position reached from `(row, col)` by the offsets
    /// `(d_row, d_col)`, each coordinate wrapped modulo its dimension.
    pub open spec fn neighbor(self, row: int, col: int, d_row: int, d_col: int) -> Cell {
        self.cells[self.idx((row + d_row) % self.height, (col + d_col) % self.width)]
    }

    /// Number of live cells among the 8 toroidal neighbors of `(row, col)`.
    /// The offsets `height - 1` and `width - 1` wrap to the row above and to
    /// the column on the left.
    pub open spec fn live_neighbors(self, row: int, col: int) -> int {
        spec_cell_value(self.neighbor(row, col, self.height - 1, self.width - 1))
            + spec_cell_value(self.neighbor(row, col, self.height - 1, 0))
            + spec_cell_value(self.neighbor(row, col, self.height - 1, 1))
            + spec_cell_value(self.neighbor(row, col, 0, self.width - 1))
            + spec_cell_value(self.neighbor(row, col, 0, 1))
            + spec_cell_value(self.neighbor(row, col, 1, self.width - 1))
            + spec_cell_value(self.neighbor(row, col, 1, 0))
            + spec_cell_value(self.neighbor(row, col, 1, 1))
    }

    /// The cell sequence one generation later: every cell is recomputed from
    /// its previous state and the previous states of its 8 neighbors.
    pub open spec fn step(self) -> Seq<Cell> {
        Seq::new(
            self.cells.len(),
            |i: int| next_cell(self.cells[i], self.live_neighbors(i / self.width, i % self.width)),
        )
    }

    /// The grid one generation later.
    pub open spec fn stepped(self) -> Grid {
        Grid { width: self.width, height: self.height, cells: self.step() }
    }

    /// The grid `n` generations later.
    pub open spec fn stepped_n(self, n: nat) -> Grid
        decreases n,
    {
        if n == 0 {
            self
        } else {
            self.stepped().stepped_n((n - 1) as nat)
        }
    }
}

/// The B3/S23 transition rule for one cell with `n` live neighbors:
/// a live cell survives with 2 or 3, a dead cell is born with exactly 3.
pub open spec fn next_cell(c: Cell, n: int) -> Cell {
    match c {
        Cell::Alive => if 2 <= n <= 3 {
            Cell::Alive
        } else {
            Cell::Dead
        },
        Cell::Dead => if n == 3 {
            Cell::Alive
        } else {
            Cell::Dead
        },
    }
}

/// Number of `Alive` cells in a sequence.
pub open spec fn count_alive(s: Seq<Cell>) -> int
    decreases s.len(),
{
    if s.len() == 0 {
        0
    } else {
        count_alive(s.drop_last()) + spec_cell_value(s.last())
    }
}

/// The deterministic default pattern: the cell at flat index `i` starts
/// alive exactly when `i` is divisible by 2 or by 7.
pub open spec fn seed_cell(i: int) -> Cell {
    if i % 2 == 0 || i % 7 == 0 {
        Cell::Alive
    } else {
        Cell::Dead
    }
}

/// `s` with the cell at `i` flipped.
pub open spec fn toggled(s: Seq<Cell>, i: int) -> Seq<Cell> {
    s.update(i, spec_flip(s[i]))
}

/// Dimensions whose product is addressable by the `u32` index type.
pub open spec fn valid_dims(width: int, height: int) -> bool {
    width * height <= u32::MAX
}

/// The cells of `g` with the five cells of the glider pattern set alive,
/// at the offsets (0,1), (1,2), (2,0), (2,1), (2,2) from `(row, col)`,
/// each coordinate wrapped modulo its dimension.
pub open spec fn glider_stamp(g: Grid, row: int, col: int) -> Seq<Cell> {
    g.cells
        .update(g.idx((row + 0) % g.height, (col + 1) % g.width), Cell::Alive)
        .update(g.idx((row + 1) % g.height, (col + 2) % g.width), Cell::Alive)
        .update(g.idx((row + 2) % g.height, (col + 0) % g.width), Cell::Alive)
        .update(g.idx((row + 2) % g.height, (col + 1) % g.width), Cell::Alive)
        .update(g.idx((row + 2) % g.height, (col + 2) % g.width), Cell::Alive)
}

/// The cell sequence after resizing `g` to `new_width x new_height`: the
/// overlapping top-left rectangle keeps its old values at the new row-major
/// positions, every other cell is `Dead`.
pub open spec fn resized(g: Grid, new_width: int, new_height: int) -> Seq<Cell> {
    Seq::new(
        (new_width * new_height) as nat,
        |i: int| if i / new_width < g.height && i % new_width < g.width {
            g.cells[g.idx(i / new_width, i % new_width)]
        } else {
            Cell::Dead
        },
    )
}

/// Row-major indices of in-range coordinates lie within the grid.
pub proof fn lemma_idx_bounds(g: Grid, row: int, col: int)
    requires
        g.wf(),
        0 <= row < g.height,
        0 <= col < g.width,
    ensures
        0 <= g.idx(row, col) < g.cells.len(),
{
    let w: int = g.width;
    let h: int = g.height;
    assert(row * w + col < w * h) by (nonlinear_arith)
        requires
            0 <= row < h,
            0 <= col < w,
    ;
}

/// The row and column can be read back from a row-major index.
pub proof fn lemma_idx_decomp(g: Grid, row: int, col: int)
    requires
        0 <= row,
        0 <= col < g.width,
    ensures
        g.idx(row, col) / g.width == row,
        g.idx(row, col) % g.width == col,
{
    lemma_fundamental_div_mod_converse(g.idx(row, col), g.width, row, col);
}

/// A flat index below `width * height` decomposes into in-range coordinates
/// whose row-major index it is.
pub proof fn lemma_flat_decomp(g: Grid, i: int)
    requires
        g.wf(),
        1 <= g.width,
        0 <= i < g.cells.len(),
    ensures
        0 <= i / g.width < g.height,
        0 <= i % g.width < g.width,
        g.idx(i / g.width, i % g.width) == i,
{
    let w: int = g.width;
    let h: int = g.height;
    lemma_mod_division_less_than_divisor(i, w);
    lemma_fundamental_div_mod(i, w);
    assert(w * h == h * w) by (nonlinear_arith);
    assert(i / w < h) by {
        if i / w >= h {
            lemma_mul_inequality(h, i / w, w);
            assert(h * w <= (i / w) * w);
            assert((i / w) * w == w * (i / w)) by (nonlinear_arith);
        }
    }
    assert(i / w >= 0) by {
        if i / w < 0 {
            lemma_mul_inequality(i / w, -1, w);
            assert((i / w) * w == w * (i / w)) by (nonlinear_arith);
            assert((-1) * w == -w) by (nonlinear_arith);
        }
    }
}

/// A wrapped coordinate lies within its dimension.
pub proof fn lemma_wrap_range(v: int, m: int)
    requires
        0 < m,
    ensures
        0 <= v % m < m,
{
    lemma_mod_division_less_than_divisor(v, m);
}

/// Closed form of wrapping one step up or left: the offset `m - 1` takes
/// coordinate 0 to `m - 1` and any other coordinate one step down.
pub proof fn lemma_wrap_dec(r: int, m: int)
    requires
        0 <= r < m,
    ensures
        (r + (m - 1)) % m == (if r == 0 { m - 1 } else { r - 1 }),
{
    if r == 0 {
        lemma_small_mod((m - 1) as nat, m as nat);
    } else {
        lemma_fundamental_div_mod_converse(r + (m - 1), m, 1, r - 1);
    }
}

/// A coordinate already in range is unchanged by wrapping.
pub proof fn lemma_wrap_id(r: int, m: int)
    requires
        0 <= r < m,
    ensures
        r % m == r,
{
    lemma_small_mod(r as nat, m as nat);
}

/// Closed form of wrapping one step down or right: the offset 1 takes
/// coordinate `m - 1` to 0 and any other coordinate one step up.
pub proof fn lemma_wrap_inc(r: int, m: int)
    requires
        0 <= r < m,
    ensures
        (r + 1) % m == (if r == m - 1 { 0 } else { r + 1 }),
{
    if r == m - 1 {
        lemma_mod_self_0(m);
    } else {
        lemma_small_mod((r + 1) as nat, m as nat);
    }
}

} // verus!
