//! The maps of one domain: numbering, updates, and saving and loading.

use map_data::item::PersistentMapItemSavedData;
use map_data::store::PersistentMapData;
use map_data::{Identifier, MapDataError, MapDataStore, MapId, MapItemSavedData, NewMapData, World};

fn new_map(origin_x: f64, origin_z: f64, scale: i8) -> NewMapData {
    let world = World {
        key: Identifier::new("minecraft:overworld".to_string()),
        domain: "minecraft".to_string(),
    };
    let grid_x = (origin_x + 64.0).floor() as i64;
    let grid_z = (origin_z + 64.0).floor() as i64;
    NewMapData::blank(&world, grid_x, grid_z, scale, true, false)
}

fn record(id: i32) -> PersistentMapItemSavedData {
    PersistentMapItemSavedData {
        id,
        center_x: 3,
        center_z: -7,
        dimension: Identifier::new("minecraft:the_end".to_string()),
        tracking_position: false,
        unlimited_tracking: true,
        scale: 1,
        colors: vec![6; 16_384],
        locked: true,
    }
}

fn load(
    last_map_id: i32,
    maps: Vec<PersistentMapItemSavedData>,
) -> Result<MapDataStore, MapDataError> {
    MapDataStore::load(Some(PersistentMapData { last_map_id, maps }))
}

fn refusal(last_map_id: i32, maps: Vec<PersistentMapItemSavedData>) -> MapDataError {
    match load(last_map_id, maps) {
        Ok(_) => panic!("the data should be refused"),
        Err(error) => error,
    }
}

fn empty_store() -> MapDataStore {
    MapDataStore::load(None).unwrap_or_else(|error| panic!("{error:?}"))
}

#[test]
fn map_data_round_trips_and_continues_the_id_sequence() {
    let mut store = MapDataStore::load(None).ok().expect("empty map data should load");
    let first_id = store
        .create_map(new_map(500.0, -500.0, 2))
        .expect("first map allocation should succeed");
    assert_eq!(store.update(first_id, |map| map.update_color(65, 2, 47)), Some(Some(true)));
    let (revision, persistent) = store
        .persistent_snapshot()
        .expect("changed map data should save");
    assert!(store
        .save::<()>(Some((revision, Ok(()))))
        .expect("changed map data should save"));
    assert!(store.persistent_snapshot().is_none());

    let mut reloaded = MapDataStore::load(Some(persistent))
        .ok()
        .expect("saved map data should reload");
    let map = reloaded
        .get(first_id)
        .expect("saved map should be present after reload");
    assert_eq!((map.center_x(), map.center_z()), (704, -320));
    assert_eq!(map.colors().len(), 16_384);
    assert_eq!(map.colors()[321], 47);

    let next_id = reloaded
        .create_map(new_map(0.0, 0.0, 0))
        .expect("map allocation after reload should succeed");
    assert_eq!(next_id.id(), first_id.id() + 1);
}

#[test]
fn maps_are_numbered_from_zero() {
    let mut store = empty_store();
    for expected in 0..5 {
        assert_eq!(store.create_map(new_map(0.0, 0.0, 0)), Ok(MapId::new(expected)));
    }
    assert!(store.get(MapId::new(4)).is_some());
    assert!(store.get(MapId::new(5)).is_none());
    assert!(store.get(MapId::new(-1)).is_none());
}

#[test]
fn inserted_copies_get_numbers_of_their_own() {
    let mut store = empty_store();
    let id = store.create_map(new_map(500.0, -500.0, 2)).unwrap();
    let map = store.get(id).unwrap();
    let locked = store.insert(map.locked()).unwrap();
    let scaled = store.insert(map.scaled()).unwrap();
    assert_eq!((id.id(), locked.id(), scaled.id()), (0, 1, 2));
    assert_eq!(store.get(id), Some(map.clone()));
    assert_eq!(store.get(locked), Some(map.locked()));
    assert_eq!(store.get(scaled), Some(map.scaled()));
}

#[test]
fn updates_change_the_stored_map_and_no_other() {
    let mut store = empty_store();
    let first = store.create_map(new_map(0.0, 0.0, 0)).unwrap();
    let second = store.create_map(new_map(0.0, 0.0, 0)).unwrap();
    let blank = store.get(second).unwrap();
    assert_eq!(store.update(first, |map| map.update_color(1, 0, 7)), Some(Some(true)));
    assert_eq!(store.get(first).unwrap().colors()[1], 7);
    assert_eq!(store.get(second), Some(blank));
    assert_eq!(store.update(first, |map: &mut MapItemSavedData| map.scale()), Some(0));
    assert_eq!(store.update(MapId::new(9), |map| map.update_color(1, 0, 7)), None);
}

#[test]
fn changes_are_saved_once() {
    let mut store = empty_store();
    assert!(store.persistent_snapshot().is_none());
    let id = store.create_map(new_map(0.0, 0.0, 0)).unwrap();
    let (revision, _) = store.persistent_snapshot().unwrap();
    store.finish_save(revision);
    assert!(store.persistent_snapshot().is_none());
    assert_eq!(store.update(MapId::new(3), |map| map.is_locked()), None);
    assert!(store.persistent_snapshot().is_none());
    assert_eq!(store.update(id, |map| map.is_locked()), Some(false));
    assert!(store.persistent_snapshot().is_some());
}

#[test]
fn saves_answer_how_they_went() {
    let mut store = empty_store();
    assert_eq!(store.save::<String>(None), Ok(false));
    store.create_map(new_map(0.0, 0.0, 0)).unwrap();
    let (revision, _) = store.persistent_snapshot().unwrap();
    let failed = store.save(Some((revision, Err("disk full".to_string()))));
    assert_eq!(failed, Err("disk full".to_string()));
    assert!(store.persistent_snapshot().is_some());
    assert_eq!(store.save::<String>(Some((revision, Ok(())))), Ok(true));
    assert!(store.persistent_snapshot().is_none());
}

#[test]
fn a_write_that_was_overtaken_answers_and_stays_unsaved() {
    let mut store = empty_store();
    let id = store.create_map(new_map(0.0, 0.0, 0)).unwrap();
    let (revision, _) = store.persistent_snapshot().unwrap();
    store.update(id, |map| map.update_color(0, 0, 1));
    assert_eq!(store.save::<()>(Some((revision, Ok(())))), Ok(true));
    assert!(store.persistent_snapshot().is_some());
}

#[test]
fn changes_during_a_save_stay_unsaved() {
    let mut store = empty_store();
    let id = store.create_map(new_map(0.0, 0.0, 0)).unwrap();
    let (revision, written) = store.persistent_snapshot().unwrap();
    store.update(id, |map| map.update_color(0, 0, 1));
    store.finish_save(revision);
    assert_eq!(written.maps[0].colors[0], 0);
    let (later, persistent) = store.persistent_snapshot().unwrap();
    assert_ne!(later, revision);
    assert_eq!(persistent.maps[0].colors[0], 1);
}

#[test]
fn snapshots_list_the_maps_in_order_with_all_their_data() {
    let mut store = load(7, vec![record(5), record(0), record(2)]).ok().unwrap();
    assert!(store.persistent_snapshot().is_none());
    assert_eq!(store.create_map(new_map(0.0, 0.0, 3)), Ok(MapId::new(8)));
    let (_, persistent) = store.persistent_snapshot().unwrap();
    assert_eq!(persistent.last_map_id, 8);
    let ids: Vec<i32> = persistent.maps.iter().map(|map| map.id).collect();
    assert_eq!(ids, vec![0, 2, 5, 8]);
    let saved = &persistent.maps[1];
    assert_eq!((saved.center_x, saved.center_z), (3, -7));
    assert_eq!(saved.dimension.as_str(), "minecraft:the_end");
    assert!(!saved.tracking_position);
    assert!(saved.unlimited_tracking);
    assert_eq!(saved.scale, 1);
    assert_eq!(saved.colors, vec![6; 16_384]);
    assert!(saved.locked);
    assert_eq!(persistent.maps[3].scale, 3);
    assert!(!persistent.maps[3].locked);
}

#[test]
fn loaded_scales_are_clamped() {
    let mut low = record(0);
    low.scale = -5;
    let mut high = record(1);
    high.scale = 100;
    let store = load(1, vec![low, high]).ok().unwrap();
    assert_eq!(store.get(MapId::new(0)).unwrap().scale(), 0);
    assert_eq!(store.get(MapId::new(1)).unwrap().scale(), 4);
}

#[test]
fn saved_data_without_maps_keeps_its_numbering() {
    let mut store = load(41, vec![]).ok().unwrap();
    assert_eq!(store.create_map(new_map(0.0, 0.0, 0)), Ok(MapId::new(42)));
}

#[test]
fn invalid_last_map_id_is_refused() {
    let error = refusal(-2, vec![record(-1)]);
    assert_eq!(error, MapDataError::InvalidLastMapId { last_map_id: -2 });
}

#[test]
fn negative_map_ids_are_refused() {
    let mut short = record(-4);
    short.colors.pop();
    assert_eq!(refusal(9, vec![record(1), short]), MapDataError::NegativeMapId { id: -4 });
}

#[test]
fn color_buffers_of_another_length_are_refused() {
    let mut short = record(3);
    short.colors.pop();
    let error = refusal(9, vec![record(3), short]);
    assert_eq!(error, MapDataError::ColorBufferLength { id: 3, length: 16_383 });
    let mut long = record(4);
    long.colors.push(0);
    let error = refusal(9, vec![long, record(-1)]);
    assert_eq!(error, MapDataError::ColorBufferLength { id: 4, length: 16_385 });
}

#[test]
fn duplicate_map_ids_are_refused() {
    let error = refusal(1, vec![record(1), record(3), record(1), record(-1)]);
    assert_eq!(error, MapDataError::DuplicateMapId { id: 1 });
}

#[test]
fn maps_beyond_the_last_map_id_are_refused() {
    assert_eq!(refusal(4, vec![record(5), record(2)]), MapDataError::LastMapIdPrecedesMap);
    assert_eq!(refusal(-1, vec![record(0)]), MapDataError::LastMapIdPrecedesMap);
    assert!(load(5, vec![record(5)]).is_ok());
    assert!(load(-1, vec![]).is_ok());
}

#[test]
fn map_ids_run_out() {
    let mut store = load(i32::MAX - 1, vec![]).ok().unwrap();
    assert_eq!(store.create_map(new_map(0.0, 0.0, 0)), Ok(MapId::new(i32::MAX)));
    let (revision, _) = store.persistent_snapshot().unwrap();
    store.finish_save(revision);
    assert_eq!(
        store.create_map(new_map(0.0, 0.0, 0)),
        Err(MapDataError::MapIdsExhausted)
    );
    assert!(store.persistent_snapshot().is_none());
    assert!(store.get(MapId::new(i32::MAX)).is_some());
}
