use vstd::prelude::*;

verus! {

/// State of one cell of the grid.
#[derive(Clone, Copy, Debug, PartialEq, Eq, Structural)]
pub enum Cell {
    Dead,
    Alive,
}

/// `Alive` counts as 1 and `Dead` as 0 when live neighbors are summed.
pub open spec fn spec_cell_value(c: Cell) -> int {
    match c {
        Cell::Alive => 1,
        Cell::Dead => 0,
    }
}

/// Explicit numeric conversion used by the neighbor count.
pub fn cell_value(c: Cell) -> (v: u8)
    ensures
        v == spec_cell_value(c),
{
    match c {
        Cell::Alive => 1,
        Cell::Dead => 0,
    }
}

/// The opposite state.
pub open spec fn spec_flip(c: Cell) -> Cell {
    match c {
        Cell::Alive => Cell::Dead,
        Cell::Dead => Cell::Alive,
    }
}

/// Exchanges `Dead` and `Alive`.
pub fn flip(c: Cell) -> (r: Cell)
    ensures
        r == spec_flip(c),
{
    match c {
        Cell::Alive => Cell::Dead,
        Cell::Dead => Cell::Alive,
    }
}

} // verus!
