use voxel_life::grid::translate_location_to_index;
use voxel_life::neighbors::get_neighbors;
use voxel_life::CELL_LOCATIONS_SIZE;

#[test]
fn center_of_all_alive_grid_counts_all_neighbors() {
    let grid = vec![true; CELL_LOCATIONS_SIZE];
    let center = translate_location_to_index(0, 0, 0);
    assert_eq!(get_neighbors(center, &grid), 26);
}

#[test]
fn outermost_shell_cell_counts_fewer_than_26_on_all_alive_grid() {
    let grid = vec![true; CELL_LOCATIONS_SIZE];
    let on_low_face = translate_location_to_index(-50, 0, 0);
    let count = get_neighbors(on_low_face, &grid);
    assert!(count < 26);
    // every offset from |x| = 50 trips the boundary test, so none is counted
    assert_eq!(count, 0);
    let on_high_face = translate_location_to_index(0, 49, 0);
    assert!(get_neighbors(on_high_face, &grid) < 26);
}

#[test]
fn empty_grid_counts_zero() {
    let grid = vec![false; CELL_LOCATIONS_SIZE];
    assert_eq!(get_neighbors(translate_location_to_index(0, 0, 0), &grid), 0);
}

#[test]
fn count_sees_exactly_the_live_neighbors() {
    let mut grid = vec![false; CELL_LOCATIONS_SIZE];
    // six face neighbors of the origin, plus a cell two steps away that
    // must not be counted
    for p in [(1, 0, 0), (-1, 0, 0), (0, 1, 0), (0, -1, 0), (0, 0, 1), (0, 0, -1), (2, 0, 0)] {
        grid[translate_location_to_index(p.0, p.1, p.2)] = true;
    }
    assert_eq!(get_neighbors(translate_location_to_index(0, 0, 0), &grid), 6);
}
