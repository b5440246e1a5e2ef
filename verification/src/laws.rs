//! Properties of the engine that relate several operations or hold of every
//! state, stated over the `Grid` model and proved once and for all.

use vstd::prelude::*;
use crate::cell::{spec_flip, Cell};
use crate::grid::{
    count_alive, lemma_flat_decomp, lemma_idx_bounds, lemma_idx_decomp, lemma_wrap_dec,
    lemma_wrap_id, lemma_wrap_inc, lemma_wrap_range, next_cell, toggled, Grid,
};

verus! {

/// Tick determinism: two universes in the same state step to the same next
/// state; the transition is a function of the grid alone.
pub proof fn lemma_tick_deterministic(a: Grid, b: Grid)
    requires
        a.width == b.width,
        a.height == b.height,
        a.cells =~= b.cells,
    ensures
        a.step() =~= b.step(),
{
    assert(a == b);
}

/// Toggle idempotence: flipping the same cell twice restores the original
/// cell sequence.
pub proof fn lemma_toggle_idempotent(s: Seq<Cell>, i: int)
    requires
        0 <= i < s.len(),
    ensures
        toggled(toggled(s, i), i) =~= s,
{
    assert(spec_flip(spec_flip(s[i])) == s[i]);
}

/// An all-dead sequence holds zero live cells.
pub proof fn lemma_count_all_dead(s: Seq<Cell>)
    requires
        forall|i: int| 0 <= i < s.len() ==> s[i] == Cell::Dead,
    ensures
        count_alive(s) == 0,
    decreases s.len(),
{
    if s.len() > 0 {
        lemma_count_all_dead(s.drop_last());
    }
}

/// Empty grid: with no live cell anywhere there is no birth, so one tick
/// leaves every cell dead.
pub proof fn lemma_empty_stays_empty(g: Grid)
    requires
        g.wf(),
        1 <= g.width,
        1 <= g.height,
        forall|i: int| 0 <= i < g.cells.len() ==> g.cells[i] == Cell::Dead,
    ensures
        forall|i: int| 0 <= i < g.step().len() ==> g.step()[i] == Cell::Dead,
{
    assert forall|i: int| 0 <= i < g.step().len() implies g.step()[i] == Cell::Dead by {
        lemma_flat_decomp(g, i);
        let r: int = i / g.width;
        let c: int = i % g.width;
        lemma_neighbor_in_range(g, r, c, g.height - 1, g.width - 1);
        lemma_neighbor_in_range(g, r, c, g.height - 1, 0);
        lemma_neighbor_in_range(g, r, c, g.height - 1, 1);
        lemma_neighbor_in_range(g, r, c, 0, g.width - 1);
        lemma_neighbor_in_range(g, r, c, 0, 1);
        lemma_neighbor_in_range(g, r, c, 1, g.width - 1);
        lemma_neighbor_in_range(g, r, c, 1, 0);
        lemma_neighbor_in_range(g, r, c, 1, 1);
        assert(g.live_neighbors(r, c) == 0);
        assert(g.step()[i] == next_cell(g.cells[i], 0));
    }
}

/// The index read by `neighbor` lies within the grid.
proof fn lemma_neighbor_in_range(g: Grid, row: int, col: int, d_row: int, d_col: int)
    requires
        g.wf(),
        1 <= g.width,
        1 <= g.height,
    ensures
        0 <= g.idx((row + d_row) % g.height, (col + d_col) % g.width) < g.cells.len(),
{
    lemma_wrap_range(row + d_row, g.height);
    lemma_wrap_range(col + d_col, g.width);
    lemma_idx_bounds(g, (row + d_row) % g.height, (col + d_col) % g.width);
}

/// Does flat index `i` lie in the 2 x 2 block whose top-left corner is
/// `(row, col)`?
pub open spec fn in_block(g: Grid, row: int, col: int, i: int) -> bool {
    row <= i / g.width <= row + 1 && col <= i % g.width <= col + 1
}

/// A grid whose only live cells form one 2 x 2 block with top-left corner
/// `(row, col)`, placed without wrapping on a torus of at least 4 x 4, so
/// that the block is surrounded by dead cells.
pub open spec fn is_lone_block(g: Grid, row: int, col: int) -> bool {
    &&& g.wf()
    &&& 4 <= g.width
    &&& 4 <= g.height
    &&& 0 <= row && row + 1 < g.height
    &&& 0 <= col && col + 1 < g.width
    &&& forall|i: int| 0 <= i < g.cells.len() ==> g.cells[i] == (if in_block(g, row, col, i) {
        Cell::Alive
    } else {
        Cell::Dead
    })
}

/// The cell at in-range coordinates of a lone-block grid, by position.
proof fn lemma_block_at(g: Grid, row: int, col: int, r: int, c: int)
    requires
        is_lone_block(g, row, col),
        0 <= r < g.height,
        0 <= c < g.width,
    ensures
        g.cells[g.idx(r, c)] == (if row <= r <= row + 1 && col <= c <= col + 1 {
            Cell::Alive
        } else {
            Cell::Dead
        }),
{
    lemma_idx_bounds(g, r, c);
    lemma_idx_decomp(g, r, c);
}

/// One cell of a lone-block grid is unchanged by the transition rule: each
/// block cell has exactly 3 live neighbors and survives, every other cell
/// sees fewer than 3 and stays dead.
proof fn lemma_block_cell(g: Grid, row: int, col: int, r: int, c: int)
    requires
        is_lone_block(g, row, col),
        0 <= r < g.height,
        0 <= c < g.width,
    ensures
        next_cell(g.cells[g.idx(r, c)], g.live_neighbors(r, c)) == g.cells[g.idx(r, c)],
{
    let w: int = g.width;
    let h: int = g.height;
    lemma_wrap_dec(r, h);
    lemma_wrap_id(r, h);
    lemma_wrap_inc(r, h);
    lemma_wrap_dec(c, w);
    lemma_wrap_id(c, w);
    lemma_wrap_inc(c, w);
    let r_up: int = if r == 0 { h - 1 } else { r - 1 };
    let r_dn: int = if r == h - 1 { 0 } else { r + 1 };
    let c_lt: int = if c == 0 { w - 1 } else { c - 1 };
    let c_rt: int = if c == w - 1 { 0 } else { c + 1 };
    lemma_block_at(g, row, col, r_up, c_lt);
    lemma_block_at(g, row, col, r_up, c);
    lemma_block_at(g, row, col, r_up, c_rt);
    lemma_block_at(g, row, col, r, c_lt);
    lemma_block_at(g, row, col, r, c_rt);
    lemma_block_at(g, row, col, r_dn, c_lt);
    lemma_block_at(g, row, col, r_dn, c);
    lemma_block_at(g, row, col, r_dn, c_rt);
    lemma_block_at(g, row, col, r, c);
}

/// Still-life stability, one generation: a lone 2 x 2 block of live cells
/// is unchanged by a tick.
pub proof fn lemma_block_still_life(g: Grid, row: int, col: int)
    requires
        is_lone_block(g, row, col),
    ensures
        g.step() =~= g.cells,
{
    assert forall|i: int| 0 <= i < g.step().len() implies g.step()[i] == g.cells[i] by {
        lemma_flat_decomp(g, i);
        lemma_block_cell(g, row, col, i / g.width, i % g.width);
    }
}

/// Still-life stability: a lone 2 x 2 block of live cells is unchanged by
/// any number of ticks.
pub proof fn lemma_block_still_life_forever(g: Grid, row: int, col: int, n: nat)
    requires
        is_lone_block(g, row, col),
    ensures
        g.stepped_n(n) == g,
    decreases n,
{
    if n > 0 {
        lemma_block_still_life(g, row, col);
        assert(g.stepped() =~= g);
        lemma_block_still_life_forever(g, row, col, (n - 1) as nat);
    }
}

} // verus!
