use game_of_life::{Cell, GridError, Universe};

fn check_invariant(u: &Universe) {
    assert_eq!(u.cells().len(), (u.width() as usize) * (u.height() as usize));
}

#[test]
fn dimension_invariant_after_every_operation() {
    let mut u = Universe::new_with_size(5, 3).unwrap();
    check_invariant(&u);
    u.tick().unwrap();
    check_invariant(&u);
    u.toggle_cell(2, 4).unwrap();
    check_invariant(&u);
    u.set_cell(0, 0, Cell::Alive).unwrap();
    check_invariant(&u);
    u.clear();
    check_invariant(&u);
    u.set_glider(1, 1).unwrap();
    check_invariant(&u);
    u.resize(7, 2).unwrap();
    check_invariant(&u);
    u.resize(2, 7).unwrap();
    check_invariant(&u);
    let bits = vec![true; 14];
    u.randomize(&bits);
    check_invariant(&u);
}

#[test]
fn new_has_default_size_and_pattern() {
    let u = Universe::new();
    assert_eq!(u.width(), 64);
    assert_eq!(u.height(), 64);
    assert_eq!(u.cells().len(), 64 * 64);
    for (i, &c) in u.cells().iter().enumerate() {
        let expected = if i % 2 == 0 || i % 7 == 0 { Cell::Alive } else { Cell::Dead };
        assert_eq!(c, expected);
    }
}

#[test]
fn new_with_size_seed_pattern_exact() {
    let u = Universe::new_with_size(4, 4).unwrap();
    for i in 0..16usize {
        let expected = if i % 2 == 0 || i % 7 == 0 { Cell::Alive } else { Cell::Dead };
        assert_eq!(u.cells()[i], expected);
    }
    // Even indices 0..=14 give 8 live cells; index 7 adds one more.
    assert_eq!(u.alive_count(), 9);
}

#[test]
fn new_empty_is_all_dead() {
    let u = Universe::new_empty(5, 7).unwrap();
    assert_eq!(u.width(), 5);
    assert_eq!(u.height(), 7);
    assert_eq!(u.cells().len(), 35);
    assert!(u.cells().iter().all(|&c| c == Cell::Dead));
    assert_eq!(u.alive_count(), 0);
}

#[test]
fn overflowing_dimensions_are_rejected() {
    assert!(matches!(
        Universe::new_with_size(u32::MAX, u32::MAX),
        Err(GridError::InvalidDimensions)
    ));
    assert!(matches!(Universe::new_empty(u32::MAX, 2), Err(GridError::InvalidDimensions)));
    let mut u = Universe::new_empty(4, 4).unwrap();
    let before = u.cells().clone();
    assert_eq!(u.resize(u32::MAX, 3), Err(GridError::InvalidDimensions));
    assert_eq!(u.cells(), &before);
    assert_eq!(u.width(), 4);
    assert_eq!(u.height(), 4);
}

#[test]
fn dimension_product_boundary() {
    // 65536 * 65536 is the first product past the index range.
    assert!(matches!(Universe::new_empty(65536, 65536), Err(GridError::InvalidDimensions)));
    let u = Universe::new_empty(2048, 2048).unwrap();
    assert_eq!(u.width(), 2048);
    assert_eq!(u.height(), 2048);
}

#[test]
fn toggle_cell_flips_and_restores() {
    let mut u = Universe::new_with_size(5, 5).unwrap();
    let before = u.cells().clone();
    let original = u.cells()[2 * 5 + 3];
    u.toggle_cell(2, 3).unwrap();
    assert_ne!(u.cells()[2 * 5 + 3], original);
    u.toggle_cell(2, 3).unwrap();
    assert_eq!(u.cells()[2 * 5 + 3], original);
    assert_eq!(u.cells(), &before);
}

#[test]
fn set_cell_writes_row_major() {
    let mut u = Universe::new_empty(4, 4).unwrap();
    u.set_cell(1, 1, Cell::Alive).unwrap();
    for i in 0..16usize {
        let expected = if i == 5 { Cell::Alive } else { Cell::Dead };
        assert_eq!(u.cells()[i], expected);
    }
    u.set_cell(1, 1, Cell::Dead).unwrap();
    assert_eq!(u.alive_count(), 0);
}

#[test]
fn out_of_bounds_set_cell_fails_and_leaves_grid_unchanged() {
    let mut u = Universe::new_with_size(5, 3).unwrap();
    let before = u.cells().clone();
    // Row equal to the height is the first out-of-range row.
    assert_eq!(u.set_cell(3, 0, Cell::Alive), Err(GridError::OutOfBounds));
    assert_eq!(u.set_cell(0, 5, Cell::Alive), Err(GridError::OutOfBounds));
    assert_eq!(u.cells(), &before);
    assert_eq!(u.width(), 5);
    assert_eq!(u.height(), 3);
}

#[test]
fn out_of_bounds_toggle_and_glider_fail() {
    let mut u = Universe::new_empty(6, 6).unwrap();
    assert_eq!(u.toggle_cell(6, 0), Err(GridError::OutOfBounds));
    assert_eq!(u.toggle_cell(0, 6), Err(GridError::OutOfBounds));
    assert_eq!(u.set_glider(6, 0), Err(GridError::OutOfBounds));
    assert_eq!(u.set_glider(0, 6), Err(GridError::OutOfBounds));
    assert_eq!(u.alive_count(), 0);
}

#[test]
fn clear_kills_every_cell() {
    let mut u = Universe::new_with_size(6, 6).unwrap();
    assert!(u.alive_count() > 0);
    u.clear();
    assert_eq!(u.alive_count(), 0);
    assert!(u.cells().iter().all(|&c| c == Cell::Dead));
}

#[test]
fn randomize_copies_the_injected_bits() {
    let mut u = Universe::new_empty(3, 3).unwrap();
    let bits = vec![true, false, false, true, true, false, false, false, true];
    u.randomize(&bits);
    for i in 0..9usize {
        let expected = if bits[i] { Cell::Alive } else { Cell::Dead };
        assert_eq!(u.cells()[i], expected);
    }
    assert_eq!(u.alive_count(), 4);
}

#[test]
fn set_glider_stamps_five_cells() {
    let mut u = Universe::new_empty(8, 8).unwrap();
    u.set_glider(1, 1).unwrap();
    let live: Vec<usize> =
        (0..64).filter(|&i| u.cells()[i] == Cell::Alive).collect();
    // Offsets (0,1), (1,2), (2,0), (2,1), (2,2) from (1,1), row-major on width 8.
    assert_eq!(live, vec![1 * 8 + 2, 2 * 8 + 3, 3 * 8 + 1, 3 * 8 + 2, 3 * 8 + 3]);
}

#[test]
fn set_glider_is_additive() {
    let mut u = Universe::new_empty(8, 8).unwrap();
    u.set_cell(7, 7, Cell::Alive).unwrap();
    u.set_glider(1, 1).unwrap();
    assert_eq!(u.cells()[7 * 8 + 7], Cell::Alive);
    assert_eq!(u.alive_count(), 6);
}

#[test]
fn set_glider_wraps_around_the_edges() {
    let mut u = Universe::new_empty(4, 4).unwrap();
    u.set_glider(2, 2).unwrap();
    let live: Vec<usize> =
        (0..16).filter(|&i| u.cells()[i] == Cell::Alive).collect();
    // Targets: (2,3), (3,0), (0,2), (0,3), (0,0) after wrapping modulo 4.
    assert_eq!(live, vec![0, 2, 3, 2 * 4 + 3, 3 * 4 + 0]);
}

#[test]
fn resize_shrink_keeps_the_overlap() {
    let mut u = Universe::new_empty(4, 4).unwrap();
    u.set_cell(1, 1, Cell::Alive).unwrap();
    u.resize(2, 2).unwrap();
    assert_eq!(u.width(), 2);
    assert_eq!(u.height(), 2);
    assert_eq!(u.cells(), &vec![Cell::Dead, Cell::Dead, Cell::Dead, Cell::Alive]);
}

#[test]
fn resize_grow_zero_fills_the_new_cells() {
    let mut u = Universe::new_empty(4, 4).unwrap();
    u.set_cell(1, 1, Cell::Alive).unwrap();
    u.resize(6, 6).unwrap();
    assert_eq!(u.width(), 6);
    assert_eq!(u.height(), 6);
    assert_eq!(u.cells().len(), 36);
    for i in 0..36usize {
        let expected = if i == 1 * 6 + 1 { Cell::Alive } else { Cell::Dead };
        assert_eq!(u.cells()[i], expected);
    }
}
