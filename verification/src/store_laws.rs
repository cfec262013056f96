//! What the operations on the maps of one domain do, stated over their arguments and
//! results.
//!
//! Each law takes what one or more calls were given and what they returned, and says how
//! these relate.

use vstd::arithmetic::power2::pow2;
use vstd::prelude::*;

use crate::error::MapDataError;
use crate::ids::MapId;
use crate::item::{
    law_fresh_maps_show_the_area_of_their_origin, MapItemSavedData, NewMapData,
};
use crate::store::{
    law_refusals_name_the_first_fault, law_saved_data_is_loaded_in_full, law_saved_maps_load_back,
    sound, MapDataState, MapDataStore, PersistentMapData,
};

verus! {

/// A domain without saved data starts without maps and with nothing to save. Its first map
/// gets the number 0.
pub proof fn law_load_nothing(
    loaded: Result<MapDataStore, MapDataError>,
    id: MapId,
    found: Option<MapItemSavedData>,
    snapshot: Option<(u64, PersistentMapData)>,
    store: &mut MapDataStore,
    map: MapItemSavedData,
    inserted: Result<MapId, MapDataError>,
)
    requires
        call_ensures(MapDataStore::load, (None,), loaded),
        loaded is Ok ==> {
            &&& call_ensures(MapDataStore::get, (&loaded->Ok_0, id), found)
            &&& call_ensures(MapDataStore::persistent_snapshot, (&loaded->Ok_0,), snapshot)
            &&& *store == loaded->Ok_0
            &&& call_ensures(MapDataStore::insert, (store, map), inserted)
        },
    ensures
        loaded is Ok,
        found is None,
        snapshot is None,
        inserted is Ok,
        inserted->Ok_0@ == 0,
{
}

/// Saved data is loaded where its last map number is -1 or more and its records have
/// distinct numbers from 0 to the last one and 128 times 128 colours each. It is refused
/// otherwise.
pub proof fn law_load_accepts(
    persistent: PersistentMapData,
    loaded: Result<MapDataStore, MapDataError>,
)
    requires
        call_ensures(MapDataStore::load, (Some(persistent),), loaded),
    ensures
        loaded is Ok <==> {
            &&& persistent.last_map_id >= -1
            &&& forall|i: int|
                #![trigger persistent.maps@[i]]
                0 <= i < persistent.maps.len() ==> {
                    &&& 0 <= persistent.maps@[i].id <= persistent.last_map_id
                    &&& persistent.maps@[i].colors.len() == 128 * 128
                }
            &&& forall|i: int, j: int|
                #![trigger persistent.maps@[i], persistent.maps@[j]]
                0 <= i < j < persistent.maps.len() ==> persistent.maps@[i].id
                    != persistent.maps@[j].id
        },
{
    law_refusals_name_the_first_fault(persistent@);
    let records = persistent@.maps;
    assert(records.len() == persistent.maps.len());
    assert(forall|i: int|
        #![trigger records[i]]
        #![trigger persistent.maps@[i]]
        0 <= i < records.len() ==> records[i] == persistent.maps@[i]@);
}

/// Where a store was loaded, each record gives the map with its number, which holds what the
/// record holds, with the scale brought into 0 to 4. No other number has a map, and there is
/// nothing to save.
pub proof fn law_load_gives_the_saved_maps(
    persistent: PersistentMapData,
    store: MapDataStore,
    id: MapId,
    found: Option<MapItemSavedData>,
    snapshot: Option<(u64, PersistentMapData)>,
)
    requires
        call_ensures(MapDataStore::load, (Some(persistent),), Ok(store)),
        call_ensures(MapDataStore::get, (&store, id), found),
        call_ensures(MapDataStore::persistent_snapshot, (&store,), snapshot),
    ensures
        snapshot is None,
        forall|i: int|
            #![trigger persistent.maps@[i]]
            0 <= i < persistent.maps.len() && persistent.maps@[i].id == id@ ==> {
                let record = persistent.maps@[i];
                &&& found is Some
                &&& found->0@.center_x == record.center_x
                &&& found->0@.center_z == record.center_z
                &&& found->0@.dimension == record.dimension@
                &&& found->0@.tracking_position == record.tracking_position
                &&& found->0@.unlimited_tracking == record.unlimited_tracking
                &&& 0 <= record.scale <= 4 ==> found->0@.scale == record.scale
                &&& record.scale < 0 ==> found->0@.scale == 0
                &&& record.scale > 4 ==> found->0@.scale == 4
                &&& found->0@.colors == record.colors@
                &&& found->0@.locked == record.locked
            },
        found is Some ==> exists|i: int|
            0 <= i < persistent.maps.len() && (#[trigger] persistent.maps@[i]).id == id@,
{
    law_saved_data_is_loaded_in_full(persistent@);
    let records = persistent@.maps;
    assert(forall|i: int|
        #![trigger persistent.maps@[i]]
        0 <= i < records.len() ==> records[i] == persistent.maps@[i]@);
    assert forall|i: int| #![trigger persistent.maps@[i]] 0 <= i < records.len() implies {
        let record = persistent.maps@[i];
        &&& store@.maps.contains_key(record.id)
        &&& store@.maps[record.id] == record@.map.with_clamped_scale()
    } by {
        assert(records[i] == persistent.maps@[i]@);
    }
    if found is Some {
        let i = choose|i: int| 0 <= i < records.len() && (#[trigger] records[i]).id == id@;
        assert(persistent.maps@[i].id == id@);
    }
}

/// A refusal says what is wrong with the saved data: its last map number; or the first record
/// that cannot stand together with those before it, by its number, and by the length of its
/// colours where that is what is wrong; or that the last map number is too low.
pub proof fn law_load_refusals(persistent: PersistentMapData, error: MapDataError)
    requires
        call_ensures(MapDataStore::load, (Some(persistent),), Err(error)),
    ensures
        ({
            let records = persistent@.maps;
            &&& error is InvalidLastMapId <==> persistent.last_map_id < -1
            &&& match error {
                MapDataError::InvalidLastMapId { last_map_id } => {
                    last_map_id == persistent.last_map_id
                },
                MapDataError::NegativeMapId { id } => {
                    &&& id < 0
                    &&& exists|k: int|
                        0 <= k < records.len() && sound(records.take(k)) && (
                        #[trigger] records[k]).id == id
                },
                MapDataError::ColorBufferLength { id, length } => {
                    &&& id >= 0
                    &&& length != 128 * 128
                    &&& exists|k: int|
                        0 <= k < records.len() && sound(records.take(k)) && (
                        #[trigger] records[k]).id == id && records[k].map.colors.len() == length
                },
                MapDataError::DuplicateMapId { id } => {
                    exists|j: int, k: int|
                        0 <= j < k < records.len() && sound(records.take(k)) && (
                        #[trigger] records[j]).id == id && (#[trigger] records[k]).id == id
                            && records[k].map.colors.len() == 128 * 128
                },
                MapDataError::LastMapIdPrecedesMap => {
                    &&& sound(records)
                    &&& exists|k: int|
                        0 <= k < records.len() && (#[trigger] records[k]).id
                            > persistent.last_map_id
                },
                _ => false,
            }
        }),
{
    law_refusals_name_the_first_fault(persistent@);
    let records = persistent@.maps;
    assert(forall|k: int|
        #![trigger records[k]]
        0 <= k < records.len() ==> records[k].map.colors.len() == persistent.maps@[k].colors.len());
}

/// A store is loaded with the state that its saved data describes, or with the empty state
/// where there is none.
pub proof fn law_load_takes_the_state(
    persistent: PersistentMapData,
    state: Result<MapDataState, MapDataError>,
    loaded: Result<MapDataStore, MapDataError>,
    empty: MapDataState,
    fresh: Result<MapDataStore, MapDataError>,
)
    requires
        call_ensures(MapDataState::from_persistent, (persistent,), state),
        call_ensures(MapDataStore::load, (Some(persistent),), loaded),
        call_ensures(MapDataState::empty, (), empty),
        call_ensures(MapDataStore::load, (None,), fresh),
    ensures
        match (state, loaded) {
            (Ok(state), Ok(store)) => store@ == state@,
            (Err(error), Err(reported)) => reported == error,
            _ => false,
        },
        fresh is Ok,
        fresh->Ok_0@ == empty@,
        empty@.last_map_id == -1,
        forall|id: i32| !empty@.maps.contains_key(id),
        empty@.revision == empty@.saved_revision,
{
}

/// A map is stored under the number after the last one, which is then the last one, unless
/// there is no such number or a map has it. It is refused in these two cases only, with an
/// error that says which, and nothing changes. A stored map counts the revision up and leaves
/// the saved one.
pub proof fn law_insert(
    store: &mut MapDataStore,
    map: MapItemSavedData,
    result: Result<MapId, MapDataError>,
)
    requires
        call_ensures(MapDataStore::insert, (store, map), result),
    ensures
        match result {
            Ok(id) => {
                &&& old(store)@.last_map_id < 2147483647
                &&& !old(store)@.maps.contains_key(id@)
                &&& id@ == old(store)@.last_map_id + 1
                &&& final(store)@.last_map_id == id@
                &&& final(store)@.maps == old(store)@.maps.insert(id@, map@)
                &&& final(store)@.revision as int == (old(store)@.revision + 1)
                    % 0x1_0000_0000_0000_0000
                &&& final(store)@.saved_revision == old(store)@.saved_revision
            },
            Err(MapDataError::MapIdsExhausted) => {
                &&& old(store)@.last_map_id == 2147483647
                &&& final(store)@ == old(store)@
            },
            Err(MapDataError::MapIdAllocated { id }) => {
                &&& id == old(store)@.last_map_id + 1
                &&& old(store)@.maps.contains_key(id)
                &&& final(store)@ == old(store)@
            },
            Err(_) => false,
        },
{
}

/// A map that was inserted is found under the number that was handed out, with everything it
/// holds. Under every other number is what was there before.
pub proof fn law_insert_get(
    store: &mut MapDataStore,
    map: MapItemSavedData,
    id: MapId,
    before: MapDataStore,
    after: MapDataStore,
    other: MapId,
    found_before: Option<MapItemSavedData>,
    found_after: Option<MapItemSavedData>,
)
    requires
        before == *store,
        after == *final(store),
        call_ensures(MapDataStore::insert, (store, map), Ok(id)),
        call_ensures(MapDataStore::get, (&before, other), found_before),
        call_ensures(MapDataStore::get, (&after, other), found_after),
    ensures
        other@ == id@ ==> found_before is None && found_after is Some && found_after->0@ == map@,
        other@ != id@ ==> (found_after is Some <==> found_before is Some),
        other@ != id@ && found_before is Some ==> found_after->0@ == found_before->0@,
{
}

/// Maps get numbers that follow each other: where two maps are inserted one after the other,
/// the second number is one more than the first. The second map is refused where the first
/// number was the largest, and is then not stored; there is no other reason to refuse it.
pub proof fn law_insert_numbers_follow_each_other(
    store: &mut MapDataStore,
    map: MapItemSavedData,
    id: MapId,
    next_store: &mut MapDataStore,
    next_map: MapItemSavedData,
    next: Result<MapId, MapDataError>,
)
    requires
        store@.valid(),
        call_ensures(MapDataStore::insert, (store, map), Ok(id)),
        *next_store == *final(store),
        call_ensures(MapDataStore::insert, (next_store, next_map), next),
    ensures
        match next {
            Ok(next_id) => next_id@ == id@ + 1,
            Err(error) => {
                &&& id@ == 2147483647
                &&& error is MapIdsExhausted
                &&& final(next_store)@ == old(next_store)@
            },
        },
        next is Ok <==> id@ < 2147483647,
{
}

/// Creating a map from a description is creating the fresh map and inserting it: the map
/// found under the number that was handed out is what was described, blank and unlocked,
/// and shows the area of its origin.
pub proof fn law_create_map_get(
    store: &mut MapDataStore,
    new: NewMapData,
    id: MapId,
    after: MapDataStore,
    found: Option<MapItemSavedData>,
)
    requires
        call_ensures(MapDataStore::create_map, (store, new), Ok(id)),
        after == *final(store),
        call_ensures(MapDataStore::get, (&after, id), found),
    ensures
        found is Some,
        ({
            let map = found->0@;
            let width = (128 * pow2(map.scale as nat)) as int;
            let start_x = map.center_x - width / 2;
            let start_z = map.center_z - width / 2;
            &&& map.dimension == new@.dimension
            &&& map.tracking_position == new@.tracking_position
            &&& map.unlimited_tracking == new@.unlimited_tracking
            &&& 0 <= new@.scale <= 4 ==> map.scale == new@.scale
            &&& new@.scale < 0 ==> map.scale == 0
            &&& new@.scale > 4 ==> map.scale == 4
            &&& map.colors.len() == 128 * 128
            &&& forall|i: int| 0 <= i < 128 * 128 ==> #[trigger] map.colors[i] == 0
            &&& !map.locked
            &&& (start_x + 64) % width == 0
            &&& (start_z + 64) % width == 0
            &&& start_x <= new@.grid_x - 64 < start_x + width
            &&& start_z <= new@.grid_z - 64 < start_z + width
        }),
{
    law_fresh_maps_show_the_area_of_their_origin(new@);
}

/// Creating a map does to the store what inserting the fresh map does, and answers the same.
pub proof fn law_create_map_inserts(
    store: &mut MapDataStore,
    new: NewMapData,
    created: Result<MapId, MapDataError>,
    map: MapItemSavedData,
    other: &mut MapDataStore,
    inserted: Result<MapId, MapDataError>,
)
    requires
        *other == *store,
        call_ensures(MapDataStore::create_map, (store, new), created),
        call_ensures(MapItemSavedData::create_fresh, (new,), map),
        call_ensures(MapDataStore::insert, (other, map), inserted),
    ensures
        final(store)@ == final(other)@,
        match (created, inserted) {
            (Ok(id), Ok(other_id)) => id@ == other_id@,
            (Err(error), Err(other_error)) => error == other_error,
            _ => false,
        },
{
}

/// Storing a map leaves something to save, unless the counter of revisions comes round to
/// the saved one, and a refused map leaves the store as it was.
pub proof fn law_insert_is_to_be_saved(
    store: &mut MapDataStore,
    map: MapItemSavedData,
    result: Result<MapId, MapDataError>,
    after: MapDataStore,
    snapshot: Option<(u64, PersistentMapData)>,
)
    requires
        call_ensures(MapDataStore::insert, (store, map), result),
        after == *final(store),
        call_ensures(MapDataStore::persistent_snapshot, (&after,), snapshot),
    ensures
        result is Ok ==> (snapshot is None <==> (old(store)@.revision + 1)
            % 0x1_0000_0000_0000_0000 == old(store)@.saved_revision as int),
        result is Err ==> (snapshot is None <==> old(store)@.revision == old(
            store,
        )@.saved_revision),
{
}

/// An update hands the map with the given number to the function and returns what the
/// function returns. What the function leaves is found under that number afterwards. Under
/// every other number is what was there before. Where no map has the number, nothing is
/// returned and nothing changes.
pub proof fn law_update_get<R, F: FnOnce(&mut MapItemSavedData) -> R>(
    store: &mut MapDataStore,
    id: MapId,
    update: F,
    result: Option<R>,
    before: MapDataStore,
    after: MapDataStore,
    other: MapId,
    found_before: Option<MapItemSavedData>,
    found_after: Option<MapItemSavedData>,
)
    requires
        before == *store,
        after == *final(store),
        call_ensures(MapDataStore::update::<R, F>, (store, id, update), result),
        call_ensures(MapDataStore::get, (&before, other), found_before),
        call_ensures(MapDataStore::get, (&after, other), found_after),
    ensures
        found_after is Some <==> found_before is Some,
        other@ != id@ && found_before is Some ==> found_after->0@ == found_before->0@,
        other@ == id@ ==> (result is Some <==> found_before is Some),
        other@ == id@ && found_before is Some ==> exists|map: &mut MapItemSavedData| #[trigger]
            call_ensures(update, (map,), result->0) && map@ == found_before->0@ && final(map)@
                == found_after->0@,
        result is None ==> after@ == before@,
        result is Some ==> {
            &&& after@.last_map_id == before@.last_map_id
            &&& after@.revision as int == (before@.revision + 1) % 0x1_0000_0000_0000_0000
            &&& after@.saved_revision == before@.saved_revision
        },
{
}

/// What is handed out to be saved loads again. The loaded store has the same map under every
/// number, gives the next map the same number, and has nothing to save.
pub proof fn law_snapshot_load(
    store: MapDataStore,
    revision: u64,
    persistent: PersistentMapData,
    loaded: Result<MapDataStore, MapDataError>,
    id: MapId,
    found: Option<MapItemSavedData>,
    found_again: Option<MapItemSavedData>,
    snapshot: Option<(u64, PersistentMapData)>,
)
    requires
        store@.valid(),
        call_ensures(MapDataStore::persistent_snapshot, (&store,), Some((revision, persistent))),
        call_ensures(MapDataStore::load, (Some(persistent),), loaded),
        call_ensures(MapDataStore::get, (&store, id), found),
        loaded is Ok ==> {
            &&& call_ensures(MapDataStore::get, (&loaded->Ok_0, id), found_again)
            &&& call_ensures(MapDataStore::persistent_snapshot, (&loaded->Ok_0,), snapshot)
        },
    ensures
        loaded is Ok,
        found is Some <==> found_again is Some,
        found is Some ==> found_again->0@ == found->0@,
        loaded->Ok_0@.last_map_id == store@.last_map_id,
        snapshot is None,
{
    law_saved_maps_load_back(store@, persistent@);
}

/// What is handed out to be saved lists each map once, by ascending numbers, with the fields
/// that the map has.
pub proof fn law_snapshot_lists_the_maps(
    store: MapDataStore,
    revision: u64,
    persistent: PersistentMapData,
    id: MapId,
    found: Option<MapItemSavedData>,
)
    requires
        call_ensures(MapDataStore::persistent_snapshot, (&store,), Some((revision, persistent))),
        call_ensures(MapDataStore::get, (&store, id), found),
    ensures
        persistent.last_map_id == store@.last_map_id,
        forall|i: int, j: int|
            #![trigger persistent.maps@[i], persistent.maps@[j]]
            0 <= i < j < persistent.maps.len() ==> persistent.maps@[i].id < persistent.maps@[j].id,
        found is Some <==> exists|i: int|
            0 <= i < persistent.maps.len() && (#[trigger] persistent.maps@[i]).id == id@,
        forall|i: int|
            #![trigger persistent.maps@[i]]
            0 <= i < persistent.maps.len() && persistent.maps@[i].id == id@ ==> {
                let record = persistent.maps@[i];
                &&& record.center_x == found->0@.center_x
                &&& record.center_z == found->0@.center_z
                &&& record.dimension@ == found->0@.dimension
                &&& record.tracking_position == found->0@.tracking_position
                &&& record.unlimited_tracking == found->0@.unlimited_tracking
                &&& record.scale == found->0@.scale
                &&& record.colors@ == found->0@.colors
                &&& record.locked == found->0@.locked
            },
{
    let records = persistent@.maps;
    assert(forall|i: int|
        #![trigger records[i]]
        #![trigger persistent.maps@[i]]
        0 <= i < records.len() ==> records[i] == persistent.maps@[i]@);
}

/// Once the revision that was handed out is written, nothing is left to save. Every map is as
/// it was, and so is the numbering.
pub proof fn law_snapshot_finish_save(
    store: &mut MapDataStore,
    before: MapDataStore,
    revision: u64,
    persistent: PersistentMapData,
    after: MapDataStore,
    snapshot: Option<(u64, PersistentMapData)>,
)
    requires
        before == *store,
        after == *final(store),
        call_ensures(MapDataStore::persistent_snapshot, (&before,), Some((revision, persistent))),
        call_ensures(MapDataStore::finish_save, (store, revision), ()),
        call_ensures(MapDataStore::persistent_snapshot, (&after,), snapshot),
    ensures
        snapshot is None,
        after@.maps == before@.maps,
        after@.last_map_id == before@.last_map_id,
        after@.revision == before@.revision,
{
}

/// Noting a revision that is no longer the current one changes nothing.
pub proof fn law_finish_save_late(store: &mut MapDataStore, revision: u64)
    requires
        revision != store@.revision,
        call_ensures(MapDataStore::finish_save, (store, revision), ()),
    ensures
        final(store)@ == old(store)@,
{
    assert(final(store)@ =~= old(store)@);
}

/// A save answers whether something was written, and reports a failed write as it is. After
/// a write that went well the written revision is noted as a finished save notes it;
/// otherwise nothing changes.
pub proof fn law_save<E>(
    store: &mut MapDataStore,
    written: Option<(u64, Result<(), E>)>,
    result: Result<bool, E>,
    other: &mut MapDataStore,
)
    requires
        *other == *store,
        call_ensures(MapDataStore::save::<E>, (store, written), result),
        written is Some ==> call_ensures(MapDataStore::finish_save, (other, (written->0).0), ()),
    ensures
        written is None ==> result == Ok::<bool, E>(false) && final(store)@ == old(store)@,
        match written {
            Some((_, Ok(_))) => result == Ok::<bool, E>(true) && final(store)@ == final(other)@,
            Some((_, Err(error))) => result == Err::<bool, E>(error) && final(store)@ == old(
                store,
            )@,
            None => true,
        },
{
}

} // verus!
