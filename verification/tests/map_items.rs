//! Single maps: where they lie, their colours, locking and scaling.

use map_data::grid::{clamp_scale, edge_length, fresh_center_coordinate, MAP_COLOR_COUNT};
use map_data::{Identifier, MapItemSavedData, NewMapData, World, MAX_SCALE};

fn overworld() -> World {
    World {
        key: Identifier::new("minecraft:overworld".to_string()),
        domain: "minecraft".to_string(),
    }
}

fn grid(origin: f64) -> i64 {
    (origin + 64.0).floor() as i64
}

fn new_map(origin_x: f64, origin_z: f64, scale: i8) -> NewMapData {
    NewMapData::blank(&overworld(), grid(origin_x), grid(origin_z), scale, true, false)
}

/// The centre along one axis, computed as the game does.
fn float_center(origin: f64, scale: i8) -> i32 {
    let size = 128 * (1_i32 << scale);
    let area = ((origin + 64.0) / f64::from(size)).floor() as i32;
    area * size + size / 2 - 64
}

#[test]
fn fresh_map_centers_and_scale_match_vanilla() {
    let data = MapItemSavedData::create_fresh(new_map(-65.0, -64.0, 0));
    assert_eq!((data.center_x(), data.center_z()), (-128, 0));

    let clamped = MapItemSavedData::create_fresh(new_map(3_000.0, -3_000.0, i8::MAX));
    assert_eq!(clamped.scale(), MAX_SCALE);
    assert_eq!((clamped.center_x(), clamped.center_z()), (3_008, -3_136));
}

#[test]
fn locking_copies_colors_while_scaling_creates_a_fresh_map() {
    let mut data = MapItemSavedData::create_fresh(new_map(500.0, -500.0, 2));
    assert_eq!(data.update_color(321 % 128, 321 / 128, 47), Some(true));
    assert_eq!(data.colors()[321], 47);
    assert_eq!(data.update_color(128, 0, 1), None);

    let locked = data.locked();
    assert!(locked.is_locked());
    assert_eq!(locked.colors()[321], 47);

    let scaled = data.scaled();
    assert_eq!(scaled.scale(), 3);
    assert_eq!(scaled.colors()[321], 0);
    assert!(!scaled.is_locked());
}

#[test]
fn fresh_maps_are_blank_and_keep_their_description() {
    let world = World {
        key: Identifier::new("steel:arena".to_string()),
        domain: "steel".to_string(),
    };
    let map = MapItemSavedData::create_fresh(NewMapData::blank(&world, 64, 64, -3, false, true));
    assert_eq!(map.dimension().as_str(), "steel:arena");
    assert!(!map.tracking_position());
    assert!(map.unlimited_tracking());
    assert_eq!(map.scale(), 0);
    assert!(!map.is_locked());
    assert_eq!(map.colors().len(), MAP_COLOR_COUNT);
    assert!(map.colors().iter().all(|color| *color == 0));
    assert_eq!((map.center_x(), map.center_z()), (0, 0));
}

#[test]
fn centers_agree_with_the_float_formula() {
    let origins = [
        0.0,
        -0.0,
        63.999,
        64.0,
        64.0 - 1.0 / (1u64 << 47) as f64,
        -64.0,
        -64.000_001,
        -65.0,
        127.5,
        1_023.99,
        -1_024.01,
        29_999_984.0,
        -29_999_984.3,
        2_000_000_000.0,
        -2_000_000_000.0,
        f64::NAN,
        f64::MIN_POSITIVE,
    ];
    for scale in 0..=MAX_SCALE {
        for origin in origins {
            assert_eq!(
                fresh_center_coordinate(grid(origin), scale),
                float_center(origin, scale),
                "origin {origin}, scale {scale}"
            );
        }
    }
}

#[test]
fn scaled_centers_agree_with_the_float_formula() {
    for origin in [-70_000.0, -65.0, 0.0, 1.0, 129.0, 5_000.0, 123_456.0] {
        let mut map = MapItemSavedData::create_fresh(new_map(origin, origin, 0));
        for _ in 0..6 {
            let next = map.scaled();
            let scale = (map.scale() + 1).min(MAX_SCALE);
            assert_eq!(next.scale(), scale);
            assert_eq!(next.center_x(), float_center(f64::from(map.center_x()), scale));
            assert_eq!(next.center_z(), float_center(f64::from(map.center_z()), scale));
            map = next;
        }
    }
}

#[test]
fn scales_are_clamped() {
    assert_eq!(clamp_scale(i8::MIN), 0);
    assert_eq!(clamp_scale(-1), 0);
    assert_eq!(clamp_scale(3), 3);
    assert_eq!(clamp_scale(4), 4);
    assert_eq!(clamp_scale(5), 4);
}

#[test]
fn edges_double_with_each_scale() {
    let lengths: Vec<i32> = (0..=MAX_SCALE).map(edge_length).collect();
    assert_eq!(lengths, vec![128, 256, 512, 1024, 2048]);
}

#[test]
fn the_ends_of_the_world_can_be_mapped() {
    assert_eq!(fresh_center_coordinate(i64::from(i32::MAX), 4), 2_147_482_560);
    assert_eq!(fresh_center_coordinate(i64::from(i32::MIN), 4), -2_147_482_688);
    assert_eq!(fresh_center_coordinate(i64::from(i32::MAX), 0), 2_147_483_520);
    assert_eq!(fresh_center_coordinate(i64::from(i32::MIN), 0), i32::MIN);
}

#[test]
fn maps_beyond_the_world_are_recognised() {
    assert!(new_map(2_147_483_583.0, 0.0, 0).within_world());
    assert!(!new_map(2_147_483_584.0, 0.0, 0).within_world());
    assert!(new_map(0.0, -2_147_483_712.0, 0).within_world());
    assert!(!new_map(0.0, -2_147_483_713.0, 0).within_world());
    assert!(!new_map(f64::INFINITY, 0.0, 0).within_world());
}

#[test]
fn maps_at_the_edge_of_the_world_can_be_scaled() {
    let map = MapItemSavedData::create_fresh(new_map(2_147_483_583.0, -2_147_483_712.0, 0));
    assert!(map.can_be_scaled());
    let scaled = map.scaled();
    assert_eq!((scaled.center_x(), scaled.center_z()), (2_147_483_456, -2_147_483_584));
}

#[test]
fn fresh_center_handles_both_axes() {
    assert_eq!(MapItemSavedData::fresh_center(564, -436, 2), (704, -320));
}

#[test]
fn every_position_of_an_area_has_the_same_center() {
    for grid in -256..0 {
        assert_eq!(fresh_center_coordinate(grid, 1), 0 - 256 + 128 - 64);
    }
    for grid in 0..256 {
        assert_eq!(fresh_center_coordinate(grid, 1), 64);
    }
}

#[test]
fn scaled_maps_cover_what_they_were_scaled_from() {
    for grid in [-1_000, -1, 0, 77, 4_000] {
        let mut map = MapItemSavedData::create_fresh(NewMapData::blank(
            &overworld(),
            grid,
            grid,
            0,
            true,
            true,
        ));
        for _ in 0..5 {
            let half = edge_length(map.scale()) / 2;
            let scaled = map.scaled();
            let scaled_half = edge_length(scaled.scale()) / 2;
            assert!(scaled.center_x() - scaled_half <= map.center_x() - half);
            assert!(map.center_x() + half <= scaled.center_x() + scaled_half);
            assert_eq!(scaled.dimension(), map.dimension());
            assert!(scaled.tracking_position() && scaled.unlimited_tracking());
            map = scaled;
        }
        assert_eq!(map.scaled(), map);
    }
}

#[test]
fn colors_read_back_and_do_not_touch_other_pixels() {
    let mut map = MapItemSavedData::create_fresh(new_map(0.0, 0.0, 0));
    assert_eq!(map.update_color(127, 127, 9), Some(true));
    assert_eq!(map.update_color(127, 127, 9), Some(false));
    assert_eq!(map.update_color(0, 1, 8), Some(true));
    assert_eq!(map.update_color(5, 5, 0), Some(false));
    assert_eq!(map.colors()[16_383], 9);
    assert_eq!(map.colors()[128], 8);
    assert_eq!(map.colors().iter().filter(|color| **color != 0).count(), 2);
}

#[test]
fn colors_outside_the_map_are_refused() {
    let mut map = MapItemSavedData::create_fresh(new_map(0.0, 0.0, 0));
    let before = map.clone();
    assert_eq!(map.update_color(0, 128, 1), None);
    assert_eq!(map.update_color(128, 127, 1), None);
    assert_eq!(map.update_color(usize::MAX, 0, 1), None);
    assert_eq!(map.update_color(0, usize::MAX, 1), None);
    assert_eq!(map.update_color(usize::MAX, usize::MAX / 128, 1), None);
    assert_eq!(map, before);
}

#[test]
fn locked_maps_differ_in_their_lock_only() {
    let mut map = MapItemSavedData::create_fresh(new_map(10.0, 20.0, 1));
    map.update_color(3, 4, 5);
    let locked = map.locked();
    assert!(!map.is_locked());
    assert_eq!(locked.colors(), map.colors());
    assert_eq!(locked.scale(), map.scale());
    assert_eq!(locked.center_x(), map.center_x());
    assert_eq!(locked.center_z(), map.center_z());
    assert_eq!(locked.dimension(), map.dimension());
    assert_eq!(locked.tracking_position(), map.tracking_position());
    assert_eq!(locked.unlimited_tracking(), map.unlimited_tracking());
    assert_eq!(locked.locked(), locked);
}
