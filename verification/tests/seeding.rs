use voxel_life::grid::{reset_cells, translate_location_to_index};
use voxel_life::seed::{apply_spawn_points, create_random_spawn_points};
use voxel_life::CELL_LOCATIONS_SIZE;

#[test]
fn seed_positions_stay_in_the_requested_cube() {
    let points = create_random_spawn_points(1000, (0, 0, 0), 20);
    assert_eq!(points.len(), 1000);
    for p in &points {
        assert!(-10 <= p.0 && p.0 < 10);
        assert!(-10 <= p.1 && p.1 < 10);
        assert!(-10 <= p.2 && p.2 < 10);
    }
}

#[test]
fn seed_start_is_clamped_into_the_grid() {
    // center far below the grid: the interval start clamps to -50
    let points = create_random_spawn_points(200, (-1000, -1000, -1000), 30);
    for p in &points {
        assert!(-50 <= p.0 && p.0 < -50 + 30);
        assert!(-50 <= p.1 && p.1 < -50 + 30);
        assert!(-50 <= p.2 && p.2 < -50 + 30);
    }
}

#[test]
fn applying_points_marks_exactly_those_cells() {
    let mut grid = vec![false; CELL_LOCATIONS_SIZE];
    let points = vec![(0, 0, 0), (1, 2, 3), (-50, 49, 0), (1, 2, 3)];
    apply_spawn_points(&mut grid, &points);
    assert_eq!(grid.iter().filter(|alive| **alive).count(), 3);
    for p in &points {
        assert!(grid[translate_location_to_index(p.0, p.1, p.2)]);
    }
}

#[test]
fn reseeding_an_already_alive_region_changes_nothing() {
    let mut grid = vec![false; CELL_LOCATIONS_SIZE];
    let points = create_random_spawn_points(500, (5, -3, 8), 12);
    apply_spawn_points(&mut grid, &points);
    let snapshot = grid.clone();
    apply_spawn_points(&mut grid, &points);
    assert_eq!(grid, snapshot);
}

#[test]
fn reset_kills_every_cell() {
    let mut grid = vec![true; CELL_LOCATIONS_SIZE];
    reset_cells(&mut grid);
    assert!(grid.iter().all(|alive| !alive));
}
