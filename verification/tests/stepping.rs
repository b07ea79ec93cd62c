use voxel_life::grid::translate_location_to_index;
use voxel_life::rule::GameRule;
use voxel_life::step::{cell_location_updater, step_with_chunk_size};
use voxel_life::CELL_LOCATIONS_SIZE;

#[test]
fn paused_tick_changes_nothing() {
    let mut grid = vec![false; CELL_LOCATIONS_SIZE];
    grid[translate_location_to_index(3, -7, 11)] = true;
    let snapshot = grid.clone();
    cell_location_updater(&mut grid, &GameRule::default(), true);
    assert_eq!(grid, snapshot);
}

#[test]
fn single_isolated_cell_dies_and_nothing_spawns() {
    let mut grid = vec![false; CELL_LOCATIONS_SIZE];
    grid[translate_location_to_index(0, 0, 0)] = true;
    cell_location_updater(&mut grid, &GameRule::default(), false);
    assert!(grid.iter().all(|alive| !alive));
}

#[test]
fn dead_cell_with_six_neighbors_spawns() {
    let mut grid = vec![false; CELL_LOCATIONS_SIZE];
    for p in [(1, 0, 0), (-1, 0, 0), (0, 1, 0), (0, -1, 0), (0, 0, 1), (0, 0, -1)] {
        grid[translate_location_to_index(p.0, p.1, p.2)] = true;
    }
    cell_location_updater(&mut grid, &GameRule::default(), false);
    assert!(grid[translate_location_to_index(0, 0, 0)]);
}

#[test]
fn step_result_does_not_depend_on_chunking() {
    let mut grid_a = vec![false; CELL_LOCATIONS_SIZE];
    // a deterministic scattering of live cells
    for i in (0..CELL_LOCATIONS_SIZE).step_by(37) {
        grid_a[i] = true;
    }
    let mut grid_b = grid_a.clone();
    let rule = GameRule::default();
    step_with_chunk_size(&mut grid_a, &rule, CELL_LOCATIONS_SIZE / 32);
    step_with_chunk_size(&mut grid_b, &rule, 999);
    assert_eq!(grid_a, grid_b);
}

#[test]
fn live_cell_with_five_neighbors_survives() {
    let mut grid = vec![false; CELL_LOCATIONS_SIZE];
    grid[translate_location_to_index(0, 0, 0)] = true;
    for p in [(1, 0, 0), (-1, 0, 0), (0, 1, 0), (0, -1, 0), (0, 0, 1)] {
        grid[translate_location_to_index(p.0, p.1, p.2)] = true;
    }
    cell_location_updater(&mut grid, &GameRule::default(), false);
    assert!(grid[translate_location_to_index(0, 0, 0)]);
}

#[test]
fn live_cell_with_four_neighbors_dies() {
    let mut grid = vec![false; CELL_LOCATIONS_SIZE];
    grid[translate_location_to_index(0, 0, 0)] = true;
    for p in [(1, 0, 0), (-1, 0, 0), (0, 1, 0), (0, -1, 0)] {
        grid[translate_location_to_index(p.0, p.1, p.2)] = true;
    }
    cell_location_updater(&mut grid, &GameRule::default(), false);
    assert!(!grid[translate_location_to_index(0, 0, 0)]);
}
