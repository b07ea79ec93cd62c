use voxel_life::grid::translate_location_to_index;
use voxel_life::render::{blend, feed_cells};
use voxel_life::rule::GameRule;
use voxel_life::CELL_LOCATIONS_SIZE;

// Channels come back as exact numerators over 50 (the half grid side) on
// the 0..=255 channel scale: value == numerator / 50.

#[test]
fn blend_at_grid_boundary_is_exactly_the_to_color() {
    let rule = GameRule::default();
    let (r, g, b, a) = blend(-50, 0, 0, &rule);
    assert_eq!((r, g, b), (50 * 0, 50 * 0, 50 * 255));
    assert_eq!(a, 50);
}

#[test]
fn blend_at_center_is_exactly_the_from_color() {
    let rule = GameRule::default();
    let (r, g, b, a) = blend(0, 0, 0, &rule);
    assert_eq!((r, g, b), (50 * 255, 50 * 255, 50 * 0));
    assert_eq!(a, 50);
}

#[test]
fn blend_uses_the_largest_axis_distance() {
    let rule = GameRule::default();
    // Chebyshev distance 25: exactly halfway between the two colors
    let (r, g, b, _) = blend(3, -25, 10, &rule);
    assert_eq!((r, g, b), (25 * 255, 25 * 255, 25 * 255));
}

#[test]
fn feed_cells_lists_live_cells_in_index_order_with_their_colors() {
    let mut grid = vec![false; CELL_LOCATIONS_SIZE];
    let first = translate_location_to_index(0, 0, 0);
    let second = translate_location_to_index(0, 0, 25);
    grid[first] = true;
    grid[second] = true;
    let rule = GameRule::default();
    let instances = feed_cells(&grid, &rule);
    assert_eq!(instances.len(), 2);
    assert_eq!((instances[0].x, instances[0].y, instances[0].z), (0, 0, 0));
    assert_eq!((instances[0].r, instances[0].g, instances[0].b), (50 * 255, 50 * 255, 0));
    assert_eq!((instances[1].x, instances[1].y, instances[1].z), (0, 0, 25));
    assert_eq!((instances[1].r, instances[1].g, instances[1].b), (25 * 255, 25 * 255, 25 * 255));
    assert_eq!(instances[0].a, 50);
}

#[test]
fn feed_cells_of_empty_grid_is_empty() {
    let grid = vec![false; CELL_LOCATIONS_SIZE];
    assert!(feed_cells(&grid, &GameRule::default()).is_empty());
}
