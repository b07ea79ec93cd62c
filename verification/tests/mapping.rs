use voxel_life::grid::{translate_index_to_location, translate_location_to_index};
use voxel_life::rule::GameRule;
use voxel_life::CELL_LOCATIONS_SIZE;

#[test]
fn index_of_origin_is_grid_center() {
    assert_eq!(translate_location_to_index(0, 0, 0), 50 + 100 * 50 + 10000 * 50);
}

#[test]
fn index_of_corners() {
    assert_eq!(translate_location_to_index(-50, -50, -50), 0);
    assert_eq!(translate_location_to_index(49, 49, 49), CELL_LOCATIONS_SIZE - 1);
}

#[test]
fn position_of_center_index() {
    assert_eq!(translate_index_to_location(505050), (0, 0, 0));
}

#[test]
fn round_trip_over_every_index() {
    for i in 0..CELL_LOCATIONS_SIZE {
        let (x, y, z) = translate_index_to_location(i);
        assert!(-50 <= x && x < 50);
        assert!(-50 <= y && y < 50);
        assert!(-50 <= z && z < 50);
        assert_eq!(translate_location_to_index(x, y, z), i);
    }
}

#[test]
fn dense_array_marks_exactly_the_listed_counts() {
    let table = GameRule::to_dense_array(&[0, 26, 13]);
    for (n, entry) in table.iter().enumerate() {
        assert_eq!(*entry, n == 0 || n == 26 || n == 13);
    }
}

#[test]
fn dense_array_of_nothing_is_all_false() {
    let table = GameRule::to_dense_array(&[]);
    assert!(table.iter().all(|e| !e));
}

#[test]
fn default_rule_tables_and_parameters() {
    let rule = GameRule::default();
    for n in 0..27 {
        assert_eq!(rule.neighbors_to_surive[n], (5..=8).contains(&n));
        assert_eq!(rule.neighbors_to_spawn[n], n == 6 || n == 7 || n == 9);
    }
    assert_eq!(rule.spawn_noise_count, 50000);
    assert_eq!(rule.spawn_noise_radius, 75);
    assert_eq!((rule.color_from.r, rule.color_from.g, rule.color_from.b), (255, 255, 0));
    assert_eq!((rule.color_to.r, rule.color_to.g, rule.color_to.b), (0, 0, 255));
}
