use game_of_life::{Cell, GridError, Universe};

#[test]
fn tick_is_deterministic() {
    let mut a = Universe::new_with_size(10, 8).unwrap();
    let mut b = Universe::new_with_size(10, 8).unwrap();
    assert_eq!(a.cells(), b.cells());
    a.tick().unwrap();
    b.tick().unwrap();
    assert_eq!(a.cells(), b.cells());
    a.tick().unwrap();
    b.tick().unwrap();
    assert_eq!(a.cells(), b.cells());
}

#[test]
fn empty_grid_stays_empty() {
    let mut u = Universe::new_empty(5, 7).unwrap();
    assert_eq!(u.alive_count(), 0);
    u.tick().unwrap();
    assert!(u.cells().iter().all(|&c| c == Cell::Dead));
    assert_eq!(u.alive_count(), 0);
}

#[test]
fn tick_on_a_zero_dimension_is_rejected() {
    let mut u = Universe::new_empty(0, 5).unwrap();
    assert_eq!(u.tick(), Err(GridError::InvalidDimensions));
    let mut v = Universe::new_empty(5, 0).unwrap();
    assert_eq!(v.tick(), Err(GridError::InvalidDimensions));
    assert_eq!(v.width(), 5);
    assert_eq!(v.height(), 0);
}

#[test]
fn block_is_a_still_life() {
    let mut u = Universe::new_empty(6, 6).unwrap();
    u.set_cell(2, 2, Cell::Alive).unwrap();
    u.set_cell(2, 3, Cell::Alive).unwrap();
    u.set_cell(3, 2, Cell::Alive).unwrap();
    u.set_cell(3, 3, Cell::Alive).unwrap();
    let before = u.cells().clone();
    for _ in 0..5 {
        u.tick().unwrap();
        assert_eq!(u.cells(), &before);
    }
}

#[test]
fn blinker_oscillates() {
    let mut u = Universe::new_empty(5, 5).unwrap();
    u.set_cell(2, 1, Cell::Alive).unwrap();
    u.set_cell(2, 2, Cell::Alive).unwrap();
    u.set_cell(2, 3, Cell::Alive).unwrap();
    let horizontal = u.cells().clone();
    u.tick().unwrap();
    let live: Vec<usize> = (0..25).filter(|&i| u.cells()[i] == Cell::Alive).collect();
    assert_eq!(live, vec![1 * 5 + 2, 2 * 5 + 2, 3 * 5 + 2]);
    u.tick().unwrap();
    assert_eq!(u.cells(), &horizontal);
}

#[test]
fn lone_live_cell_dies_of_underpopulation() {
    let mut u = Universe::new_empty(5, 5).unwrap();
    u.set_cell(2, 2, Cell::Alive).unwrap();
    u.tick().unwrap();
    assert_eq!(u.alive_count(), 0);
}

#[test]
fn crowded_cell_dies_of_overpopulation() {
    let mut u = Universe::new_empty(5, 5).unwrap();
    // Plus-shape: the center has 4 live neighbors and must die.
    u.set_cell(1, 2, Cell::Alive).unwrap();
    u.set_cell(2, 1, Cell::Alive).unwrap();
    u.set_cell(2, 2, Cell::Alive).unwrap();
    u.set_cell(2, 3, Cell::Alive).unwrap();
    u.set_cell(3, 2, Cell::Alive).unwrap();
    u.tick().unwrap();
    assert_eq!(u.cells()[2 * 5 + 2], Cell::Dead);
}

#[test]
fn dead_cell_with_three_neighbors_is_born() {
    let mut u = Universe::new_empty(6, 6).unwrap();
    u.set_cell(1, 1, Cell::Alive).unwrap();
    u.set_cell(1, 2, Cell::Alive).unwrap();
    u.set_cell(2, 1, Cell::Alive).unwrap();
    u.tick().unwrap();
    // The corner completes the block ...
    assert_eq!(u.cells()[2 * 6 + 2], Cell::Alive);
    // ... and the three parents survive with 2 or 3 neighbors each.
    assert_eq!(u.alive_count(), 4);
}

#[test]
fn neighbor_counting_wraps_around_the_torus() {
    let mut u = Universe::new_empty(5, 5).unwrap();
    // A vertical blinker across the top and bottom edges: column 2,
    // rows 4, 0, 1. After one tick it must lie flat in row 0.
    u.set_cell(4, 2, Cell::Alive).unwrap();
    u.set_cell(0, 2, Cell::Alive).unwrap();
    u.set_cell(1, 2, Cell::Alive).unwrap();
    u.tick().unwrap();
    let live: Vec<usize> = (0..25).filter(|&i| u.cells()[i] == Cell::Alive).collect();
    assert_eq!(live, vec![1, 2, 3]);
}

#[test]
fn glider_translates_by_one_one_after_four_ticks() {
    let mut u = Universe::new_empty(8, 8).unwrap();
    u.set_glider(1, 1).unwrap();
    for _ in 0..4 {
        u.tick().unwrap();
    }
    let mut expected = Universe::new_empty(8, 8).unwrap();
    expected.set_glider(2, 2).unwrap();
    assert_eq!(u.cells(), expected.cells());
}

#[test]
fn glider_walks_the_whole_torus() {
    // 4 ticks move the glider by (1,1); 32 ticks bring it home on 8 x 8.
    let mut u = Universe::new_empty(8, 8).unwrap();
    u.set_glider(1, 1).unwrap();
    let start = u.cells().clone();
    for _ in 0..32 {
        u.tick().unwrap();
    }
    assert_eq!(u.cells(), &start);
}
