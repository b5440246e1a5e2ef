//! The glider theorem: a lone glider on a large enough torus reproduces its
//! own shape translated by (+1, +1) after four generations. The proof walks
//! the four phases of the glider cycle, one per-cell case analysis each.

use vstd::prelude::*;
use crate::cell::Cell;
use crate::grid::{
    glider_stamp, lemma_flat_decomp, lemma_idx_bounds, lemma_idx_decomp, lemma_wrap_dec,
    lemma_wrap_id, lemma_wrap_inc, next_cell, Grid,
};

verus! {

/// The live cells of the glider cycle, phase by phase, as offsets from the
/// corner the glider was stamped at. Phase 0 is the stamped shape; phase 4
/// is phase 0 shifted by (+1, +1).
pub open spec fn glider_cell(phase: int, d_row: int, d_col: int) -> bool {
    if phase == 0 {
        ||| (d_row == 0 && d_col == 1)
        ||| (d_row == 1 && d_col == 2)
        ||| (d_row == 2 && d_col == 0)
        ||| (d_row == 2 && d_col == 1)
        ||| (d_row == 2 && d_col == 2)
    } else if phase == 1 {
        ||| (d_row == 1 && d_col == 0)
        ||| (d_row == 1 && d_col == 2)
        ||| (d_row == 2 && d_col == 1)
        ||| (d_row == 2 && d_col == 2)
        ||| (d_row == 3 && d_col == 1)
    } else if phase == 2 {
        ||| (d_row == 1 && d_col == 2)
        ||| (d_row == 2 && d_col == 0)
        ||| (d_row == 2 && d_col == 2)
        ||| (d_row == 3 && d_col == 1)
        ||| (d_row == 3 && d_col == 2)
    } else if phase == 3 {
        ||| (d_row == 1 && d_col == 1)
        ||| (d_row == 2 && d_col == 2)
        ||| (d_row == 2 && d_col == 3)
        ||| (d_row == 3 && d_col == 1)
        ||| (d_row == 3 && d_col == 2)
    } else {
        ||| (d_row == 1 && d_col == 2)
        ||| (d_row == 2 && d_col == 3)
        ||| (d_row == 3 && d_col == 1)
        ||| (d_row == 3 && d_col == 2)
        ||| (d_row == 3 && d_col == 3)
    }
}

/// A grid whose only live cells are one glider in the given phase, with its
/// corner at `(row, col)`.
pub open spec fn is_lone_glider_phase(g: Grid, row: int, col: int, phase: int) -> bool {
    forall|i: int| 0 <= i < g.cells.len() ==> g.cells[i] == (if glider_cell(
        phase,
        i / g.width - row,
        i % g.width - col,
    ) {
        Cell::Alive
    } else {
        Cell::Dead
    })
}

/// A grid whose only live cells are one freshly stamped glider at `(row, col)`.
pub open spec fn is_lone_glider(g: Grid, row: int, col: int) -> bool {
    is_lone_glider_phase(g, row, col, 0)
}

/// Room for the glider to walk one diagonal step without touching itself
/// around the torus.
pub open spec fn glider_has_room(g: Grid, row: int, col: int) -> bool {
    &&& 8 <= g.width
    &&& 8 <= g.height
    &&& 0 <= row && row + 5 < g.height
    &&& 0 <= col && col + 5 < g.width
}

/// The cell at in-range coordinates of a lone-glider grid, by position.
proof fn lemma_glider_at(g: Grid, row: int, col: int, phase: int, r: int, c: int)
    requires
        g.wf(),
        is_lone_glider_phase(g, row, col, phase),
        0 <= r < g.height,
        0 <= c < g.width,
    ensures
        g.cells[g.idx(r, c)] == (if glider_cell(phase, r - row, c - col) {
            Cell::Alive
        } else {
            Cell::Dead
        }),
{
    lemma_idx_bounds(g, r, c);
    lemma_idx_decomp(g, r, c);
}

/// One cell of a lone-glider grid after one application of the transition
/// rule: the grid moves to the next phase of the cycle.
#[verifier::rlimit(60)]
proof fn lemma_glider_cell_step(g: Grid, row: int, col: int, phase: int, r: int, c: int)
    requires
        g.wf(),
        glider_has_room(g, row, col),
        0 <= phase < 4,
        is_lone_glider_phase(g, row, col, phase),
        0 <= r < g.height,
        0 <= c < g.width,
    ensures
        next_cell(g.cells[g.idx(r, c)], g.live_neighbors(r, c)) == (if glider_cell(
            phase + 1,
            r - row,
            c - col,
        ) {
            Cell::Alive
        } else {
            Cell::Dead
        }),
{
    let w: int = g.width;
    let h: int = g.height;
    lemma_wrap_dec(r, h);
    lemma_wrap_id(r, h);
    lemma_wrap_inc(r, h);
    lemma_wrap_dec(c, w);
    lemma_wrap_id(c, w);
    lemma_wrap_inc(c, w);
    let r_up: int = if r == 0 { h - 1 } else { r - 1 };
    let r_dn: int = if r == h - 1 { 0 } else { r + 1 };
    let c_lt: int = if c == 0 { w - 1 } else { c - 1 };
    let c_rt: int = if c == w - 1 { 0 } else { c + 1 };
    lemma_glider_at(g, row, col, phase, r_up, c_lt);
    lemma_glider_at(g, row, col, phase, r_up, c);
    lemma_glider_at(g, row, col, phase, r_up, c_rt);
    lemma_glider_at(g, row, col, phase, r, c_lt);
    lemma_glider_at(g, row, col, phase, r, c_rt);
    lemma_glider_at(g, row, col, phase, r_dn, c_lt);
    lemma_glider_at(g, row, col, phase, r_dn, c);
    lemma_glider_at(g, row, col, phase, r_dn, c_rt);
    lemma_glider_at(g, row, col, phase, r, c);
}

/// One tick takes a lone glider to the next phase of its cycle, in place.
proof fn lemma_glider_step(g: Grid, row: int, col: int, phase: int)
    requires
        g.wf(),
        glider_has_room(g, row, col),
        0 <= phase < 4,
        is_lone_glider_phase(g, row, col, phase),
    ensures
        g.stepped().wf(),
        is_lone_glider_phase(g.stepped(), row, col, phase + 1),
{
    assert forall|i: int| 0 <= i < g.stepped().cells.len() implies g.stepped().cells[i] == (
    if glider_cell(phase + 1, i / g.stepped().width - row, i % g.stepped().width - col) {
        Cell::Alive
    } else {
        Cell::Dead
    }) by {
        lemma_flat_decomp(g, i);
        lemma_glider_cell_step(g, row, col, phase, i / g.width, i % g.width);
    }
}

/// Stamping the glider on an all-dead grid, away from the edges, leaves
/// exactly the lone phase-0 glider.
pub proof fn lemma_stamp_on_empty(g: Grid, s: Grid, row: int, col: int)
    requires
        g.wf(),
        0 <= row && row + 2 < g.height,
        0 <= col && col + 2 < g.width,
        forall|i: int| 0 <= i < g.cells.len() ==> g.cells[i] == Cell::Dead,
        s.width == g.width,
        s.height == g.height,
        s.cells == glider_stamp(g, row, col),
    ensures
        s.wf(),
        is_lone_glider(s, row, col),
{
    lemma_wrap_id(row, g.height);
    lemma_wrap_id(row + 1, g.height);
    lemma_wrap_id(row + 2, g.height);
    lemma_wrap_id(col, g.width);
    lemma_wrap_id(col + 1, g.width);
    lemma_wrap_id(col + 2, g.width);
    lemma_idx_bounds(g, row, col + 1);
    lemma_idx_decomp(g, row, col + 1);
    lemma_idx_bounds(g, row + 1, col + 2);
    lemma_idx_decomp(g, row + 1, col + 2);
    lemma_idx_bounds(g, row + 2, col);
    lemma_idx_decomp(g, row + 2, col);
    lemma_idx_bounds(g, row + 2, col + 1);
    lemma_idx_decomp(g, row + 2, col + 1);
    lemma_idx_bounds(g, row + 2, col + 2);
    lemma_idx_decomp(g, row + 2, col + 2);
    assert forall|i: int| 0 <= i < s.cells.len() implies s.cells[i] == (if glider_cell(
        0,
        i / s.width - row,
        i % s.width - col,
    ) {
        Cell::Alive
    } else {
        Cell::Dead
    }) by {
        lemma_flat_decomp(g, i);
    }
}

/// Glider translation: a lone glider, with room to walk, reappears as the
/// same shape translated by (+1, +1) after exactly four ticks.
pub proof fn lemma_glider_translation(g: Grid, row: int, col: int)
    requires
        g.wf(),
        glider_has_room(g, row, col),
        is_lone_glider(g, row, col),
    ensures
        g.stepped_n(4).width == g.width,
        g.stepped_n(4).height == g.height,
        g.stepped_n(4).wf(),
        is_lone_glider(g.stepped_n(4), row + 1, col + 1),
{
    let g1: Grid = g.stepped();
    let g2: Grid = g1.stepped();
    let g3: Grid = g2.stepped();
    let g4: Grid = g3.stepped();
    lemma_glider_step(g, row, col, 0);
    lemma_glider_step(g1, row, col, 1);
    lemma_glider_step(g2, row, col, 2);
    lemma_glider_step(g3, row, col, 3);
    assert(g.stepped_n(4) == g1.stepped_n(3));
    assert(g1.stepped_n(3) == g2.stepped_n(2));
    assert(g2.stepped_n(2) == g3.stepped_n(1));
    assert(g3.stepped_n(1) == g4.stepped_n(0));
    assert forall|i: int| 0 <= i < g4.cells.len() implies g4.cells[i] == (if glider_cell(
        0,
        i / g4.width - (row + 1),
        i % g4.width - (col + 1),
    ) {
        Cell::Alive
    } else {
        Cell::Dead
    }) by {
        assert(glider_cell(4, i / g4.width - row, i % g4.width - col) == glider_cell(
            0,
            i / g4.width - (row + 1),
            i % g4.width - (col + 1),
        ));
    }
}

} // verus!
