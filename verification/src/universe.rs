//! The executable engine: a `Universe` owns a toroidal grid of cells and
//! offers construction, inspection, mutation and single-step advancement.
//! Every operation keeps the dimension invariant `wf` and is specified
//! against the `Grid` model.

use vstd::prelude::*;
use crate::cell::{cell_value, flip, Cell};
use crate::grid::{
    count_alive, glider_stamp, lemma_idx_bounds, lemma_idx_decomp, lemma_wrap_range, next_cell,
    resized, seed_cell, toggled, valid_dims, Grid,
};

verus! {

/// Why an operation was rejected. Every rejected operation leaves the
/// universe unchanged.
#[derive(Clone, Copy, Debug, PartialEq, Eq, Structural)]
pub enum GridError {
    /// A row or column argument lies outside the grid.
    OutOfBounds,
    /// Dimensions whose product overflows the index range, or an attempt to
    /// advance a grid with a zero dimension.
    InvalidDimensions,
}

/// A toroidal Game-of-Life universe: a `width x height` grid of cells stored
/// as one flat row-major buffer of length `width * height`.
pub struct Universe {
    width: u32,
    height: u32,
    cells: Vec<Cell>,
}

impl View for Universe {
    type V = Grid;

    closed spec fn view(&self) -> Grid {
        Grid { width: self.width as int, height: self.height as int, cells: self.cells@ }
    }
}

impl Universe {
    /// The dimension invariant, established by the constructors and kept by
    /// every operation.
    pub open spec fn wf(self) -> bool {
        self@.wf()
    }

    /// Whether `width * height` fits the `u32` index range.
    fn dims_ok(width: u32, height: u32) -> (b: bool)
        ensures
            b == valid_dims(width as int, height as int),
    {
        proof {
            assert((width as int) * (height as int) <= 0xffff_ffff * 0xffff_ffff)
                by (nonlinear_arith)
                requires
                    width <= 0xffff_ffffu32,
                    height <= 0xffff_ffffu32,
            ;
        }
        (width as u64) * (height as u64) <= u32::MAX as u64
    }

    /// Builds the default demo pattern for in-range dimensions.
    fn with_pattern(width: u32, height: u32) -> (u: Universe)
        requires
            valid_dims(width as int, height as int),
        ensures
            u.wf(),
            u@.width == width,
            u@.height == height,
            forall|i: int| 0 <= i < u@.cells.len() ==> u@.cells[i] == seed_cell(i),
    {
        let total: u32 = width * height;
        let mut cells: Vec<Cell> = Vec::new();
        let mut i: u32 = 0;
        while i < total
            invariant
                i <= total,
                cells@.len() == i,
                forall|j: int| 0 <= j < i ==> cells@[j] == seed_cell(j),
            decreases total - i,
        {
            if i % 2 == 0 || i % 7 == 0 {
                cells.push(Cell::Alive);
            } else {
                cells.push(Cell::Dead);
            }
            i = i + 1;
        }
        Universe { width, height, cells }
    }

    /// A 64 x 64 universe holding the default demo pattern.
    pub fn new() -> (u: Universe)
        ensures
            u.wf(),
            u@.width == 64,
            u@.height == 64,
            forall|i: int| 0 <= i < u@.cells.len() ==> u@.cells[i] == seed_cell(i),
    {
        Universe::with_pattern(64, 64)
    }

    /// A universe holding the default demo pattern: the cell at flat index
    /// `i` is alive exactly when `i % 2 == 0` or `i % 7 == 0`. Rejects
    /// dimensions whose product overflows the index range.
    pub fn new_with_size(width: u32, height: u32) -> (r: Result<Universe, GridError>)
        ensures
            valid_dims(width as int, height as int) <==> r is Ok,
            r matches Ok(u) ==> u.wf() && u@.width == width && u@.height == height,
            r matches Ok(u) ==> forall|i: int| 0 <= i < u@.cells.len() ==> u@.cells[i]
                == seed_cell(i),
            r matches Err(e) ==> e == GridError::InvalidDimensions,
    {
        if !Self::dims_ok(width, height) {
            return Err(GridError::InvalidDimensions);
        }
        Ok(Universe::with_pattern(width, height))
    }

    /// A universe with every cell dead. Rejects dimensions whose product
    /// overflows the index range.
    pub fn new_empty(width: u32, height: u32) -> (r: Result<Universe, GridError>)
        ensures
            valid_dims(width as int, height as int) <==> r is Ok,
            r matches Ok(u) ==> u.wf() && u@.width == width && u@.height == height,
            r matches Ok(u) ==> forall|i: int| 0 <= i < u@.cells.len() ==> u@.cells[i]
                == Cell::Dead,
            r matches Err(e) ==> e == GridError::InvalidDimensions,
    {
        if !Self::dims_ok(width, height) {
            return Err(GridError::InvalidDimensions);
        }
        let total: u32 = width * height;
        let cells: Vec<Cell> = vec![Cell::Dead; total as usize];
        Ok(Universe { width, height, cells })
    }

    /// Number of columns.
    pub fn width(&self) -> (w: u32)
        ensures
            w == self@.width,
    {
        self.width
    }

    /// Number of rows.
    pub fn height(&self) -> (h: u32)
        ensures
            h == self@.height,
    {
        self.height
    }

    /// Read-only view of the cell buffer, row-major, valid until the next
    /// mutating call.
    pub fn cells(&self) -> (cs: &Vec<Cell>)
        ensures
            cs@ == self@.cells,
    {
        &self.cells
    }

    /// Flat index of an in-range position.
    fn get_index(&self, row: u32, col: u32) -> (i: usize)
        requires
            self.wf(),
            row < self@.height,
            col < self@.width,
        ensures
            i == self@.idx(row as int, col as int),
            i < self@.cells.len(),
    {
        proof {
            lemma_idx_bounds(self@, row as int, col as int);
        }
        (row as usize) * (self.width as usize) + (col as usize)
    }

    /// Cell at the wrapped position reached from `(row, col)` by the
    /// offsets `(d_row, d_col)`.
    fn wrapped_cell(&self, row: u32, col: u32, d_row: u32, d_col: u32) -> (c: Cell)
        requires
            self.wf(),
            1 <= self@.height,
            1 <= self@.width,
            row < self@.height,
            col < self@.width,
        ensures
            c == self@.neighbor(row as int, col as int, d_row as int, d_col as int),
    {
        let nr: u64 = (row as u64 + d_row as u64) % (self.height as u64);
        let nc: u64 = (col as u64 + d_col as u64) % (self.width as u64);
        proof {
            lemma_wrap_range(row as int + d_row as int, self@.height);
            lemma_wrap_range(col as int + d_col as int, self@.width);
            lemma_idx_bounds(
                self@,
                (row as int + d_row as int) % self@.height,
                (col as int + d_col as int) % self@.width,
            );
        }
        let i: usize = (nr as usize) * (self.width as usize) + (nc as usize);
        self.cells[i]
    }

    /// Number of live cells among the 8 toroidal neighbors of `(row, col)`.
    fn live_neighbor_count(&self, row: u32, col: u32) -> (n: u8)
        requires
            self.wf(),
            1 <= self@.height,
            1 <= self@.width,
            row < self@.height,
            col < self@.width,
        ensures
            n == self@.live_neighbors(row as int, col as int),
    {
        let up: u32 = self.height - 1;
        let left: u32 = self.width - 1;
        let mut n: u8 = 0;
        n = n + cell_value(self.wrapped_cell(row, col, up, left));
        n = n + cell_value(self.wrapped_cell(row, col, up, 0));
        n = n + cell_value(self.wrapped_cell(row, col, up, 1));
        n = n + cell_value(self.wrapped_cell(row, col, 0, left));
        n = n + cell_value(self.wrapped_cell(row, col, 0, 1));
        n = n + cell_value(self.wrapped_cell(row, col, 1, left));
        n = n + cell_value(self.wrapped_cell(row, col, 1, 0));
        n = n + cell_value(self.wrapped_cell(row, col, 1, 1));
        n
    }

    /// Advances the whole grid by one generation, computing every new cell
    /// from the previous states only. Rejects a grid with a zero dimension,
    /// whose toroidal wrap is undefined.
    pub fn tick(&mut self) -> (r: Result<(), GridError>)
        requires
            old(self).wf(),
        ensures
            final(self).wf(),
            final(self)@.width == old(self)@.width,
            final(self)@.height == old(self)@.height,
            (1 <= old(self)@.width && 1 <= old(self)@.height) <==> r is Ok,
            r is Ok ==> final(self)@.cells =~= old(self)@.step(),
            r is Err ==> *final(self) == *old(self),
            r matches Err(e) ==> e == GridError::InvalidDimensions,
    {
        if self.width == 0 || self.height == 0 {
            return Err(GridError::InvalidDimensions);
        }
        let ghost g: Grid = self@;
        let mut next: Vec<Cell> = Vec::new();
        let mut row: u32 = 0;
        while row < self.height
            invariant
                self@ == g,
                g.wf(),
                1 <= g.width,
                1 <= g.height,
                row <= g.height,
                next@.len() == row * g.width,
                forall|k: int| 0 <= k < next@.len() ==> next@[k] == next_cell(
                    g.cells[k],
                    g.live_neighbors(k / g.width, k % g.width),
                ),
            decreases g.height - row,
        {
            let mut col: u32 = 0;
            while col < self.width
                invariant
                    self@ == g,
                    g.wf(),
                    1 <= g.width,
                    1 <= g.height,
                    row < g.height,
                    col <= g.width,
                    next@.len() == row * g.width + col,
                    forall|k: int| 0 <= k < next@.len() ==> next@[k] == next_cell(
                        g.cells[k],
                        g.live_neighbors(k / g.width, k % g.width),
                    ),
                decreases g.width - col,
            {
                let i: usize = self.get_index(row, col);
                let cur: Cell = self.cells[i];
                let ln: u8 = self.live_neighbor_count(row, col);
                let stepped: Cell = match cur {
                    Cell::Alive => if 2 <= ln && ln <= 3 {
                        Cell::Alive
                    } else {
                        Cell::Dead
                    },
                    Cell::Dead => if ln == 3 {
                        Cell::Alive
                    } else {
                        Cell::Dead
                    },
                };
                proof {
                    lemma_idx_decomp(g, row as int, col as int);
                }
                next.push(stepped);
                col = col + 1;
            }
            proof {
                let r_i: int = row as int;
                let w: int = g.width;
                assert((r_i + 1) * w == r_i * w + w) by (nonlinear_arith);
            }
            row = row + 1;
        }
        proof {
            assert(g.height * g.width == g.width * g.height) by (nonlinear_arith);
            assert(next@ =~= g.step());
        }
        self.cells = next;
        Ok(())
    }

    /// Flips the cell at `(row, col)`; rejects out-of-range positions.
    pub fn toggle_cell(&mut self, row: u32, col: u32) -> (r: Result<(), GridError>)
        requires
            old(self).wf(),
        ensures
            final(self).wf(),
            final(self)@.width == old(self)@.width,
            final(self)@.height == old(self)@.height,
            (row < old(self)@.height && col < old(self)@.width) <==> r is Ok,
            r is Ok ==> final(self)@.cells == toggled(
                old(self)@.cells,
                old(self)@.idx(row as int, col as int),
            ),
            r is Err ==> *final(self) == *old(self),
            r matches Err(e) ==> e == GridError::OutOfBounds,
    {
        if !(row < self.height && col < self.width) {
            return Err(GridError::OutOfBounds);
        }
        let i: usize = self.get_index(row, col);
        let cur: Cell = self.cells[i];
        self.cells[i] = flip(cur);
        Ok(())
    }

    /// Writes `cell` at `(row, col)`; rejects out-of-range positions.
    pub fn set_cell(&mut self, row: u32, col: u32, cell: Cell) -> (r: Result<(), GridError>)
        requires
            old(self).wf(),
        ensures
            final(self).wf(),
            final(self)@.width == old(self)@.width,
            final(self)@.height == old(self)@.height,
            (row < old(self)@.height && col < old(self)@.width) <==> r is Ok,
            r is Ok ==> final(self)@.cells == old(self)@.cells.update(
                old(self)@.idx(row as int, col as int),
                cell,
            ),
            r is Err ==> *final(self) == *old(self),
            r matches Err(e) ==> e == GridError::OutOfBounds,
    {
        if !(row < self.height && col < self.width) {
            return Err(GridError::OutOfBounds);
        }
        let i: usize = self.get_index(row, col);
        self.cells[i] = cell;
        Ok(())
    }

    /// Sets every cell to `Dead`.
    pub fn clear(&mut self)
        requires
            old(self).wf(),
        ensures
            final(self).wf(),
            final(self)@.width == old(self)@.width,
            final(self)@.height == old(self)@.height,
            forall|i: int| 0 <= i < final(self)@.cells.len() ==> final(self)@.cells[i]
                == Cell::Dead,
    {
        let total: usize = self.cells.len();
        self.cells = vec![Cell::Dead; total];
    }

    /// Overwrites every cell from one injected random bit per cell: `true`
    /// becomes `Alive`, `false` becomes `Dead`. The caller draws the bits
    /// from whatever random source it has.
    pub fn randomize(&mut self, bits: &Vec<bool>)
        requires
            old(self).wf(),
            bits@.len() == old(self)@.cells.len(),
        ensures
            final(self).wf(),
            final(self)@.width == old(self)@.width,
            final(self)@.height == old(self)@.height,
            forall|i: int| 0 <= i < final(self)@.cells.len() ==> final(self)@.cells[i]
                == (if bits@[i] { Cell::Alive } else { Cell::Dead }),
    {
        let total: usize = self.cells.len();
        let mut next: Vec<Cell> = Vec::new();
        let mut i: usize = 0;
        while i < total
            invariant
                i <= total,
                bits@.len() == total,
                next@.len() == i,
                forall|j: int| 0 <= j < i ==> next@[j] == (if bits@[j] {
                    Cell::Alive
                } else {
                    Cell::Dead
                }),
            decreases total - i,
        {
            if bits[i] {
                next.push(Cell::Alive);
            } else {
                next.push(Cell::Dead);
            }
            i = i + 1;
        }
        self.cells = next;
    }

    /// Sets one cell alive at the wrapped position reached from
    /// `(row, col)` by the offsets `(d_row, d_col)`.
    fn stamp_alive(&mut self, row: u32, col: u32, d_row: u32, d_col: u32)
        requires
            old(self).wf(),
            1 <= old(self)@.height,
            1 <= old(self)@.width,
            row < old(self)@.height,
            col < old(self)@.width,
        ensures
            final(self).wf(),
            final(self)@.width == old(self)@.width,
            final(self)@.height == old(self)@.height,
            final(self)@.cells == old(self)@.cells.update(
                old(self)@.idx(
                    (row as int + d_row as int) % old(self)@.height,
                    (col as int + d_col as int) % old(self)@.width,
                ),
                Cell::Alive,
            ),
    {
        let nr: u64 = (row as u64 + d_row as u64) % (self.height as u64);
        let nc: u64 = (col as u64 + d_col as u64) % (self.width as u64);
        proof {
            lemma_wrap_range(row as int + d_row as int, self@.height);
            lemma_wrap_range(col as int + d_col as int, self@.width);
            lemma_idx_bounds(
                self@,
                (row as int + d_row as int) % self@.height,
                (col as int + d_col as int) % self@.width,
            );
        }
        let i: usize = (nr as usize) * (self.width as usize) + (nc as usize);
        self.cells[i] = Cell::Alive;
    }

    /// Stamps the five-cell glider pattern with its top-left corner at
    /// `(start_row, start_col)`, each target wrapped toroidally; other
    /// cells keep their states. Rejects an out-of-range corner.
    pub fn set_glider(&mut self, start_row: u32, start_col: u32) -> (r: Result<(), GridError>)
        requires
            old(self).wf(),
        ensures
            final(self).wf(),
            final(self)@.width == old(self)@.width,
            final(self)@.height == old(self)@.height,
            (start_row < old(self)@.height && start_col < old(self)@.width) <==> r is Ok,
            r is Ok ==> final(self)@.cells == glider_stamp(
                old(self)@,
                start_row as int,
                start_col as int,
            ),
            r is Err ==> *final(self) == *old(self),
            r matches Err(e) ==> e == GridError::OutOfBounds,
    {
        if !(start_row < self.height && start_col < self.width) {
            return Err(GridError::OutOfBounds);
        }
        self.stamp_alive(start_row, start_col, 0, 1);
        self.stamp_alive(start_row, start_col, 1, 2);
        self.stamp_alive(start_row, start_col, 2, 0);
        self.stamp_alive(start_row, start_col, 2, 1);
        self.stamp_alive(start_row, start_col, 2, 2);
        Ok(())
    }

    /// Changes the dimensions, keeping the overlapping top-left rectangle
    /// of cell states and filling the rest with `Dead`. Rejects dimensions
    /// whose product overflows the index range.
    pub fn resize(&mut self, new_width: u32, new_height: u32) -> (r: Result<(), GridError>)
        requires
            old(self).wf(),
        ensures
            final(self).wf(),
            valid_dims(new_width as int, new_height as int) <==> r is Ok,
            r is Ok ==> final(self)@.width == new_width && final(self)@.height == new_height,
            r is Ok ==> final(self)@.cells =~= resized(
                old(self)@,
                new_width as int,
                new_height as int,
            ),
            r is Err ==> *final(self) == *old(self),
            r matches Err(e) ==> e == GridError::InvalidDimensions,
    {
        if !Self::dims_ok(new_width, new_height) {
            return Err(GridError::InvalidDimensions);
        }
        let ghost g: Grid = self@;
        let ghost nw: int = new_width as int;
        let ghost nh: int = new_height as int;
        let mut next: Vec<Cell> = Vec::new();
        let mut row: u32 = 0;
        while row < new_height
            invariant
                self@ == g,
                g.wf(),
                valid_dims(nw, nh),
                nw == new_width,
                nh == new_height,
                row <= nh,
                next@.len() == row * nw,
                forall|k: int| 0 <= k < next@.len() ==> next@[k] == (if k / nw < g.height && k
                    % nw < g.width {
                    g.cells[g.idx(k / nw, k % nw)]
                } else {
                    Cell::Dead
                }),
            decreases nh - row,
        {
            let mut col: u32 = 0;
            while col < new_width
                invariant
                    self@ == g,
                    g.wf(),
                    valid_dims(nw, nh),
                    nw == new_width,
                    nh == new_height,
                    row < nh,
                    col <= nw,
                    next@.len() == row * nw + col,
                    forall|k: int| 0 <= k < next@.len() ==> next@[k] == (if k / nw < g.height
                        && k % nw < g.width {
                        g.cells[g.idx(k / nw, k % nw)]
                    } else {
                        Cell::Dead
                    }),
                decreases nw - col,
            {
                let kept: Cell = if row < self.height && col < self.width {
                    let i: usize = self.get_index(row, col);
                    self.cells[i]
                } else {
                    Cell::Dead
                };
                proof {
                    lemma_row_major_readback(nw, row as int, col as int);
                }
                next.push(kept);
                col = col + 1;
            }
            proof {
                let r_i: int = row as int;
                assert((r_i + 1) * nw == r_i * nw + nw) by (nonlinear_arith);
            }
            row = row + 1;
        }
        proof {
            assert(row * nw == nh * nw);
            assert(nh * nw == nw * nh) by (nonlinear_arith);
            assert(next@ =~= resized(g, nw, nh));
        }
        self.width = new_width;
        self.height = new_height;
        self.cells = next;
        Ok(())
    }

    /// Number of live cells in the whole grid.
    pub fn alive_count(&self) -> (n: u32)
        requires
            self.wf(),
        ensures
            n == count_alive(self@.cells),
    {
        let total: usize = self.cells.len();
        let mut n: u32 = 0;
        let mut i: usize = 0;
        while i < total
            invariant
                self.wf(),
                total == self@.cells.len(),
                i <= total,
                n <= i,
                n == count_alive(self@.cells.take(i as int)),
            decreases total - i,
        {
            let c: Cell = self.cells[i];
            proof {
                assert(self@.cells.take(i as int + 1).drop_last() =~= self@.cells.take(i as int));
                assert(self@.cells.take(i as int + 1).last() == self@.cells[i as int]);
            }
            match c {
                Cell::Alive => {
                    n = n + 1;
                },
                Cell::Dead => {},
            }
            i = i + 1;
        }
        proof {
            assert(self@.cells.take(total as int) =~= self@.cells);
        }
        n
    }
}

/// The row and column of a row-major index can be read back by division
/// and remainder, for any width `w` the coordinates are in range of.
proof fn lemma_row_major_readback(w: int, row: int, col: int)
    requires
        0 <= row,
        0 <= col < w,
    ensures
        (row * w + col) / w == row,
        (row * w + col) % w == col,
{
    vstd::arithmetic::div_mod::lemma_fundamental_div_mod_converse(row * w + col, w, row, col);
}

} // verus!
