use game_of_life::Grid;

fn grid_with(width: usize, height: usize, live: &[(usize, usize)]) -> Grid {
    let mut grid = Grid::new(width, height, false).unwrap();
    for &(x, y) in live {
        grid.set(x, y, true);
    }
    grid
}

#[test]
fn lone_centre_cell_counts_itself() {
    let grid = grid_with(3, 3, &[(1, 1)]);
    assert_eq!(grid.count_live(1, 1), 1);
}

#[test]
fn neighbours_of_a_lone_cell_count_one() {
    let grid = grid_with(3, 3, &[(1, 1)]);
    for x in 0..3 {
        for y in 0..3 {
            assert_eq!(grid.count_live(x, y), 1, "at ({}, {})", x, y);
        }
    }
}

#[test]
fn count_does_not_reach_beyond_the_neighbourhood() {
    let grid = grid_with(5, 5, &[(0, 0), (4, 4), (0, 4), (4, 0), (2, 0), (0, 2)]);
    assert_eq!(grid.count_live(2, 2), 0);
}

#[test]
fn interior_cell_of_a_full_grid_counts_nine() {
    let grid = Grid::new(5, 5, true).unwrap();
    assert_eq!(grid.count_live(2, 2), 9);
    assert_eq!(grid.count_live(1, 3), 9);
}

#[test]
fn edge_cell_of_a_full_grid_counts_six() {
    let grid = Grid::new(5, 4, true).unwrap();
    assert_eq!(grid.count_live(0, 2), 6);
    assert_eq!(grid.count_live(4, 1), 6);
    assert_eq!(grid.count_live(2, 0), 6);
    assert_eq!(grid.count_live(3, 3), 6);
}

#[test]
fn corner_cell_of_a_full_grid_counts_four() {
    let grid = Grid::new(5, 4, true).unwrap();
    assert_eq!(grid.count_live(0, 0), 4);
    assert_eq!(grid.count_live(4, 0), 4);
    assert_eq!(grid.count_live(0, 3), 4);
    assert_eq!(grid.count_live(4, 3), 4);
}

#[test]
fn the_grid_does_not_wrap_around() {
    let grid = grid_with(4, 4, &[(3, 0), (3, 1), (3, 2), (3, 3), (0, 3), (1, 3), (2, 3)]);
    assert_eq!(grid.count_live(0, 0), 0);
    assert_eq!(grid.count_live(1, 1), 0);
}

#[test]
fn single_cell_grid_counts_only_itself() {
    assert_eq!(Grid::new(1, 1, true).unwrap().count_live(0, 0), 1);
    assert_eq!(Grid::new(1, 1, false).unwrap().count_live(0, 0), 0);
}

#[test]
fn one_column_grid_has_windows_of_at_most_three() {
    let grid = Grid::new(1, 5, true).unwrap();
    assert_eq!(grid.count_live(0, 0), 2);
    assert_eq!(grid.count_live(0, 2), 3);
    assert_eq!(grid.count_live(0, 4), 2);
}

#[test]
fn one_row_grid_has_windows_of_at_most_three() {
    let grid = Grid::new(5, 1, true).unwrap();
    assert_eq!(grid.count_live(0, 0), 2);
    assert_eq!(grid.count_live(3, 0), 3);
    assert_eq!(grid.count_live(4, 0), 2);
}

#[test]
fn two_by_two_grid_is_all_corners() {
    let grid = Grid::new(2, 2, true).unwrap();
    for x in 0..2 {
        for y in 0..2 {
            assert_eq!(grid.count_live(x, y), 4);
        }
    }
}

#[test]
fn count_tells_rows_from_columns() {
    let grid = grid_with(6, 6, &[(1, 3), (1, 4), (1, 5)]);
    assert_eq!(grid.count_live(2, 4), 3);
    assert_eq!(grid.count_live(0, 4), 3);
    assert_eq!(grid.count_live(1, 2), 1);
    assert_eq!(grid.count_live(4, 1), 0);
    assert_eq!(grid.count_live(3, 4), 0);
}

#[test]
fn count_leaves_the_grid_unchanged() {
    let grid = grid_with(4, 4, &[(1, 1), (2, 2)]);
    let before = grid.clone();
    let _ = grid.count_live(1, 2);
    assert_eq!(grid, before);
}
