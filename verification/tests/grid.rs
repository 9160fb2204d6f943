use game_of_life::{Grid, GridError};

fn live_cells(grid: &Grid) -> Vec<(usize, usize)> {
    let mut live = Vec::new();
    for x in 0..grid.width() {
        for y in 0..grid.height() {
            if grid.get(x, y) {
                live.push((x, y));
            }
        }
    }
    live
}

#[test]
fn new_grid_has_the_requested_dimensions() {
    let grid = Grid::new(7, 4, false).unwrap();
    assert_eq!(grid.width(), 7);
    assert_eq!(grid.height(), 4);
}

#[test]
fn new_grid_is_filled_with_dead_cells() {
    let grid = Grid::new(6, 5, false).unwrap();
    assert_eq!(live_cells(&grid), vec![]);
}

#[test]
fn new_grid_is_filled_with_live_cells() {
    let grid = Grid::new(3, 2, true).unwrap();
    assert_eq!(live_cells(&grid), vec![(0, 0), (0, 1), (1, 0), (1, 1), (2, 0), (2, 1)]);
}

#[test]
fn zero_width_is_refused() {
    assert_eq!(Grid::new(0, 5, false), Err(GridError::ZeroDimension));
}

#[test]
fn zero_height_is_refused() {
    assert_eq!(Grid::new(5, 0, true), Err(GridError::ZeroDimension));
}

#[test]
fn zero_width_and_height_are_refused() {
    assert_eq!(Grid::new(0, 0, false), Err(GridError::ZeroDimension));
}

#[test]
fn more_cells_than_can_be_addressed_are_refused() {
    assert_eq!(Grid::new(usize::MAX, 2, false), Err(GridError::TooLarge));
    assert_eq!(Grid::new(2, usize::MAX, false), Err(GridError::TooLarge));
}

#[test]
fn zero_dimension_is_reported_before_size() {
    assert_eq!(Grid::new(usize::MAX, 0, false), Err(GridError::ZeroDimension));
}

#[test]
fn single_cell_grid_is_accepted() {
    let grid = Grid::new(1, 1, true).unwrap();
    assert_eq!((grid.width(), grid.height()), (1, 1));
    assert!(grid.get(0, 0));
}

#[test]
fn set_changes_the_cell_it_names() {
    let mut grid = Grid::new(4, 3, false).unwrap();
    grid.set(2, 1, true);
    assert!(grid.get(2, 1));
    grid.set(2, 1, false);
    assert!(!grid.get(2, 1));
}

#[test]
fn set_leaves_every_other_cell_alone() {
    let mut grid = Grid::new(4, 3, false).unwrap();
    grid.set(1, 2, true);
    assert_eq!(live_cells(&grid), vec![(1, 2)]);
    let mut full = Grid::new(4, 3, true).unwrap();
    full.set(3, 0, false);
    assert_eq!(live_cells(&full).len(), 11);
    assert!(!full.get(3, 0));
}

#[test]
fn coordinates_are_column_then_row() {
    let mut grid = Grid::new(5, 2, false).unwrap();
    grid.set(4, 1, true);
    grid.set(0, 1, true);
    assert_eq!(live_cells(&grid), vec![(0, 1), (4, 1)]);
    assert!(!grid.get(1, 0));
}

#[test]
fn corners_can_be_set_and_read() {
    let mut grid = Grid::new(3, 4, false).unwrap();
    for (x, y) in [(0, 0), (2, 0), (0, 3), (2, 3)] {
        grid.set(x, y, true);
    }
    assert_eq!(live_cells(&grid), vec![(0, 0), (0, 3), (2, 0), (2, 3)]);
}

#[test]
fn set_twice_is_set_once() {
    let mut once = Grid::new(3, 3, false).unwrap();
    once.set(1, 1, true);
    let mut twice = Grid::new(3, 3, false).unwrap();
    twice.set(1, 1, true);
    twice.set(1, 1, true);
    assert_eq!(once, twice);
}

#[test]
fn clone_is_equal_and_independent() {
    let mut grid = Grid::new(3, 3, false).unwrap();
    grid.set(0, 2, true);
    let copy = grid.clone();
    assert_eq!(copy, grid);
    grid.set(0, 2, false);
    assert!(copy.get(0, 2));
    assert_ne!(copy, grid);
}

#[test]
fn grids_of_different_shape_differ() {
    assert_ne!(Grid::new(2, 3, false).unwrap(), Grid::new(3, 2, false).unwrap());
}

#[test]
fn from_fn_asks_the_function_for_every_cell() {
    let grid = Grid::from_fn(4, 3, |x, y| (x + y) % 2 == 0).unwrap();
    assert_eq!((grid.width(), grid.height()), (4, 3));
    assert_eq!(live_cells(&grid), vec![(0, 0), (0, 2), (1, 1), (2, 0), (2, 2), (3, 1)]);
}

#[test]
fn from_fn_tells_columns_from_rows() {
    let grid = Grid::from_fn(3, 5, |x, y| x == 2 && y == 4).unwrap();
    assert_eq!(live_cells(&grid), vec![(2, 4)]);
}

#[test]
fn from_fn_with_a_constant_is_new() {
    assert_eq!(Grid::from_fn(5, 2, |_, _| true), Grid::new(5, 2, true));
    assert_eq!(Grid::from_fn(5, 2, |_, _| false), Grid::new(5, 2, false));
}

#[test]
fn from_fn_calls_once_per_cell_column_after_column() {
    let calls = std::cell::RefCell::new(Vec::new());
    let grid = Grid::from_fn(2, 3, |x, y| {
        calls.borrow_mut().push((x, y));
        false
    })
    .unwrap();
    assert_eq!(live_cells(&grid), vec![]);
    assert_eq!(calls.into_inner(), vec![(0, 0), (0, 1), (0, 2), (1, 0), (1, 1), (1, 2)]);
}

#[test]
fn from_fn_refuses_bad_dimensions_without_calling() {
    let called = std::cell::Cell::new(false);
    let touch = |_: usize, _: usize| {
        called.set(true);
        true
    };
    assert_eq!(Grid::from_fn(0, 3, &touch), Err(GridError::ZeroDimension));
    assert_eq!(Grid::from_fn(3, 0, &touch), Err(GridError::ZeroDimension));
    assert_eq!(Grid::from_fn(usize::MAX, 4, &touch), Err(GridError::TooLarge));
    assert!(!called.get());
}
