//! The maps of one domain.

use std::collections::BTreeMap;

use vstd::prelude::*;
use vstd::std_specs::btree::increasing_seq;
use vstd::std_specs::cmp::OrdSpec;
use vstd::std_specs::iter::IteratorSpec;

use crate::error::MapDataError;
use crate::grid::MAP_COLOR_COUNT;
use crate::ids::MapId;
use crate::item::{
    MapItemModel, MapItemSavedData, MapRecordModel, NewMapData, PersistentMapItemSavedData,
};

verus! {

/// Everything that is saved of a domain's maps.
#[verifier::ext_equal]
pub struct PersistentModel {
    pub last_map_id: i32,
    pub maps: Seq<MapRecordModel>,
}

/// The maps of a domain, and which of its revisions is saved.
#[verifier::ext_equal]
pub struct MapDataModel {
    pub last_map_id: i32,
    pub maps: Map<i32, MapItemModel>,
    pub revision: u64,
    pub saved_revision: u64,
}

/// The revision after `revision`.
pub open spec fn next_revision(revision: u64) -> u64 {
    if revision == u64::MAX {
        0
    } else {
        (revision + 1) as u64
    }
}

impl MapDataModel {
    /// Whether the maps are numbered from 0 up to the last map number, and are valid.
    pub open spec fn valid(self) -> bool {
        &&& self.last_map_id >= -1
        &&& self.maps.dom().finite()
        &&& forall|id: i32| #[trigger]
            self.maps.contains_key(id) ==> 0 <= id <= self.last_map_id && self.maps[id].valid()
    }

    /// Whether there are changes that are not saved.
    pub open spec fn changed(self) -> bool {
        self.revision != self.saved_revision
    }

    /// Why no further map can be stored: there is no next number, or it is taken.
    pub open spec fn allocation_fault(self) -> Option<MapDataError> {
        if self.last_map_id == i32::MAX {
            Some(MapDataError::MapIdsExhausted)
        } else if self.maps.contains_key((self.last_map_id + 1) as i32) {
            Some(MapDataError::MapIdAllocated { id: (self.last_map_id + 1) as i32 })
        } else {
            None
        }
    }

    /// The state after `map` was stored under the next number.
    pub open spec fn with_new_map(self, map: MapItemModel) -> Self {
        let id = (self.last_map_id + 1) as i32;
        MapDataModel {
            last_map_id: id,
            maps: self.maps.insert(id, map),
            revision: next_revision(self.revision),
            ..self
        }
    }

    /// The state after the map numbered `id` was replaced by `map`.
    pub open spec fn with_updated_map(self, id: i32, map: MapItemModel) -> Self {
        MapDataModel {
            maps: self.maps.insert(id, map),
            revision: next_revision(self.revision),
            ..self
        }
    }

    /// The state after the given revision was written.
    pub open spec fn with_saved(self, revision: u64) -> Self {
        MapDataModel {
            saved_revision: if self.revision == revision {
                revision
            } else {
                self.saved_revision
            },
            ..self
        }
    }

    /// Whether a save that went well and met no other change leads to `after`: `written` is
    /// the revision that the snapshot handed out, if any, and `answer` what the save answered.
    pub open spec fn saved_as(self, written: Option<u64>, answer: bool, after: Self) -> bool {
        match written {
            None => !self.changed() && !answer && after == self,
            Some(revision) => {
                &&& self.changed()
                &&& revision == self.revision
                &&& answer
                &&& after == self.with_saved(revision)
            },
        }
    }

    /// Whether `persistent` lists exactly these maps in the order of their numbers.
    pub open spec fn is_listed_by(self, persistent: PersistentModel) -> bool {
        let records = persistent.maps;
        &&& persistent.last_map_id == self.last_map_id
        &&& forall|i: int, j: int| 0 <= i < j < records.len() ==> records[i].id < records[j].id
        &&& forall|i: int|
            #![trigger records[i]]
            0 <= i < records.len() ==> self.maps.contains_key(records[i].id)
                && self.maps[records[i].id] == records[i].map
        &&& forall|id: i32| #[trigger]
            self.maps.contains_key(id) ==> exists|i: int|
                0 <= i < records.len() && (#[trigger] records[i]).id == id
    }
}

/// Why the record at `i` is refused, given the records before it.
pub open spec fn record_fault(records: Seq<MapRecordModel>, i: int) -> Option<MapDataError> {
    let record = records[i];
    if record.id < 0 {
        Some(MapDataError::NegativeMapId { id: record.id })
    } else if record.map.colors.len() != MAP_COLOR_COUNT {
        Some(
            MapDataError::ColorBufferLength {
                id: record.id,
                length: record.map.colors.len() as usize,
            },
        )
    } else if exists|j: int| 0 <= j < i && (#[trigger] records[j]).id == record.id {
        Some(MapDataError::DuplicateMapId { id: record.id })
    } else {
        None
    }
}

/// Why the first refused record from `start` on is refused.
pub open spec fn first_record_fault(records: Seq<MapRecordModel>, start: int) -> Option<
    MapDataError,
>
    decreases records.len() - start,
{
    if start >= records.len() {
        None
    } else {
        match record_fault(records, start) {
            Some(error) => Some(error),
            None => first_record_fault(records, start + 1),
        }
    }
}

/// The maps that the records hold, with their scales rounded to ones that maps have.
pub open spec fn maps_of(records: Seq<MapRecordModel>) -> Map<i32, MapItemModel>
    decreases records.len(),
{
    if records.len() == 0 {
        Map::empty()
    } else {
        maps_of(records.drop_last()).insert(
            records.last().id,
            records.last().map.with_clamped_scale(),
        )
    }
}

impl PersistentModel {
    /// Why the saved data is refused.
    pub open spec fn fault(self) -> Option<MapDataError> {
        if self.last_map_id < -1 {
            Some(MapDataError::InvalidLastMapId { last_map_id: self.last_map_id })
        } else {
            match first_record_fault(self.maps, 0) {
                Some(error) => Some(error),
                None => if exists|i: int|
                    0 <= i < self.maps.len() && (#[trigger] self.maps[i]).id > self.last_map_id {
                    Some(MapDataError::LastMapIdPrecedesMap)
                } else {
                    None
                },
            }
        }
    }

    /// The state that the saved data describes, with nothing left to save.
    pub open spec fn loaded(self) -> MapDataModel {
        MapDataModel {
            last_map_id: self.last_map_id,
            maps: maps_of(self.maps),
            revision: 0,
            saved_revision: 0,
        }
    }
}

/// The maps of a domain before any was created.
pub open spec fn no_maps() -> MapDataModel {
    MapDataModel { last_map_id: -1i32, maps: Map::empty(), revision: 0, saved_revision: 0 }
}

/// Everything that is saved of a domain's maps.
#[derive(Debug)]
pub struct PersistentMapData {
    pub last_map_id: i32,
    pub maps: Vec<PersistentMapItemSavedData>,
}

/// What the records of a list hold.
pub open spec fn records_of(records: Seq<PersistentMapItemSavedData>) -> Seq<MapRecordModel> {
    records.map_values(|record: PersistentMapItemSavedData| record@)
}

impl View for PersistentMapData {
    type V = PersistentModel;

    open spec fn view(&self) -> PersistentModel {
        PersistentModel { last_map_id: self.last_map_id, maps: records_of(self.maps@) }
    }
}

/// The maps of a domain, and which of its revisions is saved.
pub struct MapDataState {
    last_map_id: i32,
    maps: BTreeMap<i32, MapItemSavedData>,
    revision: u64,
    saved_revision: u64,
}

spec fn map_models(maps: Map<i32, MapItemSavedData>) -> Map<i32, MapItemModel> {
    maps.map_values(|map: MapItemSavedData| map@)
}

impl View for MapDataState {
    type V = MapDataModel;

    closed spec fn view(&self) -> MapDataModel {
        MapDataModel {
            last_map_id: self.last_map_id,
            maps: map_models(self.maps@),
            revision: self.revision,
            saved_revision: self.saved_revision,
        }
    }
}

proof fn lemma_maps_of_keys(records: Seq<MapRecordModel>, id: i32)
    ensures
        maps_of(records).contains_key(id) <==> exists|i: int|
            0 <= i < records.len() && (#[trigger] records[i]).id == id,
        maps_of(records).dom().finite(),
    decreases records.len(),
{
    if records.len() > 0 {
        let rest = records.drop_last();
        lemma_maps_of_keys(rest, id);
        if maps_of(rest).contains_key(id) {
            let i = choose|i: int| 0 <= i < rest.len() && (#[trigger] rest[i]).id == id;
            assert(records[i].id == id);
        }
        if exists|i: int| 0 <= i < records.len() && (#[trigger] records[i]).id == id {
            let i = choose|i: int| 0 <= i < records.len() && (#[trigger] records[i]).id == id;
            if i < rest.len() {
                assert(rest[i].id == id);
            }
        }
    }
}

impl MapDataState {
    /// The state of a domain without maps.
    pub fn empty() -> (result: Self)
        ensures
            result@ == no_maps(),
            result@.valid(),
    {
        let result = MapDataState {
            last_map_id: -1,
            maps: BTreeMap::new(),
            revision: 0,
            saved_revision: 0,
        };
        assert(result@.maps =~= no_maps().maps);
        result
    }

    /// Restores the state from saved data.
    pub fn from_persistent(persistent: PersistentMapData) -> (result: Result<Self, MapDataError>)
        ensures
            match result {
                Ok(state) => {
                    &&& persistent@.fault() is None
                    &&& state@ == persistent@.loaded()
                    &&& state@.valid()
                },
                Err(error) => persistent@.fault() == Some(error),
            },
    {
        let last_map_id: i32 = persistent.last_map_id;
        if last_map_id < -1 {
            return Err(MapDataError::InvalidLastMapId { last_map_id });
        }
        let ghost records = persistent@.maps;
        let mut maps: BTreeMap<i32, MapItemSavedData> = BTreeMap::new();
        let mut highest: i32 = -1;
        proof {
            assert(map_models(maps@) =~= maps_of(records.take(0)));
        }
        for map in iter: persistent.maps
            invariant
                records == records_of(iter.seq()),
                records == persistent@.maps,
                persistent.last_map_id >= -1,
                map_models(maps@) == maps_of(records.take(iter.index() as int)),
                first_record_fault(records, 0) == first_record_fault(records, iter.index() as int),
                forall|id: i32| #[trigger]
                    maps@.contains_key(id) ==> 0 <= id && maps@[id]@.valid(),
                forall|j: int| 0 <= j < iter.index() ==> (#[trigger] records[j]).id <= highest,
                highest == -1 || exists|j: int|
                    0 <= j < iter.index() && (#[trigger] records[j]).id == highest,
        {
            let ghost i = iter.index() as int;
            let ghost before = maps@;
            assert(map@ == records[i]);
            if map.id < 0 {
                return Err(MapDataError::NegativeMapId { id: map.id });
            }
            if map.colors.len() != MAP_COLOR_COUNT {
                return Err(
                    MapDataError::ColorBufferLength { id: map.id, length: map.colors.len() },
                );
            }
            let id: i32 = map.id;
            let previous = maps.insert(id, MapItemSavedData::from_record(map));
            proof {
                lemma_maps_of_keys(records.take(i), id);
                assert(map_models(before).contains_key(id) == before.contains_key(id));
                assert(forall|j: int| 0 <= j < i ==> records.take(i)[j] == records[j]);
                assert(records.take(i + 1).drop_last() =~= records.take(i));
                assert(map_models(maps@) =~= maps_of(records.take(i + 1)));
            }
            if previous.is_some() {
                return Err(MapDataError::DuplicateMapId { id });
            }
            if id > highest {
                highest = id;
            }
        }
        proof {
            assert(records.take(records.len() as int) =~= records);
        }
        if highest > last_map_id {
            return Err(MapDataError::LastMapIdPrecedesMap);
        }
        let state = MapDataState { last_map_id, maps, revision: 0, saved_revision: 0 };
        proof {
            assert forall|id: i32| #[trigger] state@.maps.contains_key(id) implies 0 <= id
                <= last_map_id && state@.maps[id].valid() by {
                lemma_maps_of_keys(records, id);
                assert(maps@.contains_key(id));
            }
            lemma_maps_of_keys(records, 0);
        }
        Ok(state)
    }
}

/// `BTreeMap::get_mut`: a mutable reference to the value of `id`, or `None` where the
/// map has no such key. Whatever the value is when the reference is let go is the value
/// of `id` from then on, and nothing else in the map changes.
#[verifier::external_body]
fn map_mut(maps: &mut BTreeMap<i32, MapItemSavedData>, id: i32) -> (result: Option<
    &mut MapItemSavedData,
>)
    ensures
        match result {
            None => !old(maps)@.contains_key(id) && final(maps)@ == old(maps)@,
            Some(map) => {
                &&& old(maps)@.contains_key(id)
                &&& *map == old(maps)@[id]
                &&& final(maps)@ == old(maps)@.insert(id, *final(map))
            },
        },
{
    maps.get_mut(&id)
}

/// The index of a domain's maps and their data.
pub struct MapDataStore {
    state: MapDataState,
}

impl View for MapDataStore {
    type V = MapDataModel;

    closed spec fn view(&self) -> MapDataModel {
        self.state@
    }
}

impl MapDataStore {
    /// Makes the store of a domain from its saved data, if it has any.
    pub fn load(persistent: Option<PersistentMapData>) -> (result: Result<Self, MapDataError>)
        ensures
            match (persistent, result) {
                (None, Ok(store)) => store@ == no_maps() && store@.valid(),
                (None, Err(_)) => false,
                (Some(persistent), Ok(store)) => {
                    &&& persistent@.fault() is None
                    &&& store@ == persistent@.loaded()
                    &&& store@.valid()
                },
                (Some(persistent), Err(error)) => persistent@.fault() == Some(error),
            },
    {
        let state = match persistent {
            Some(persistent) => match MapDataState::from_persistent(persistent) {
                Ok(state) => state,
                Err(error) => return Err(error),
            },
            None => MapDataState::empty(),
        };
        Ok(MapDataStore { state })
    }

    /// Allocates and stores a fresh map centred in the area that holds its origin.
    pub fn create_map(&mut self, map: NewMapData) -> (result: Result<MapId, MapDataError>)
        requires
            map@.within_world(),
        ensures
            match result {
                Ok(id) => {
                    &&& old(self)@.last_map_id < i32::MAX
                    &&& id@ == old(self)@.last_map_id + 1
                    &&& !old(self)@.maps.contains_key(id@)
                    &&& final(self)@ == old(self)@.with_new_map(map@.fresh())
                },
                Err(error) => {
                    &&& old(self)@.allocation_fault() == Some(error)
                    &&& final(self)@ == old(self)@
                },
            },
            result is Ok <==> old(self)@.allocation_fault() is None,
            old(self)@.valid() ==> final(self)@.valid(),
    {
        let map = MapItemSavedData::create_fresh(map);
        self.insert(map)
    }

    /// Allocates a new number for an existing map value, such as a locked or scaled copy.
    pub fn insert(&mut self, map: MapItemSavedData) -> (result: Result<MapId, MapDataError>)
        ensures
            match result {
                Ok(id) => {
                    &&& old(self)@.last_map_id < i32::MAX
                    &&& id@ == old(self)@.last_map_id + 1
                    &&& !old(self)@.maps.contains_key(id@)
                    &&& final(self)@ == old(self)@.with_new_map(map@)
                },
                Err(error) => {
                    &&& old(self)@.allocation_fault() == Some(error)
                    &&& final(self)@ == old(self)@
                },
            },
            result is Ok <==> old(self)@.allocation_fault() is None,
            old(self)@.valid() ==> final(self)@.valid(),
    {
        let id: i32 = match self.state.last_map_id.checked_add(1) {
            Some(id) => id,
            None => return Err(MapDataError::MapIdsExhausted),
        };
        assert(self@.maps.contains_key(id) == self.state.maps@.contains_key(id));
        if self.state.maps.contains_key(&id) {
            return Err(MapDataError::MapIdAllocated { id });
        }
        proof {
            use_type_invariant(&map);
        }
        self.state.maps.insert(id, map);
        self.state.last_map_id = id;
        self.state.revision = self.state.revision.wrapping_add(1);
        assert(self@.maps =~= old(self)@.with_new_map(map@).maps);
        Ok(MapId::new(id))
    }

    /// Returns a snapshot of the saved data for `id`.
    pub fn get(&self, id: MapId) -> (result: Option<MapItemSavedData>)
        ensures
            match result {
                Some(map) => self@.maps.contains_key(id@) && map@ == self@.maps[id@],
                None => !self@.maps.contains_key(id@),
            },
    {
        let id: i32 = id.id();
        assert(self@.maps.contains_key(id) == self.state.maps@.contains_key(id));
        match self.state.maps.get(&id) {
            Some(map) => Some(map.clone()),
            None => None,
        }
    }

    /// Mutates an allocated map and marks the store changed.
    pub fn update<R, F: FnOnce(&mut MapItemSavedData) -> R>(
        &mut self,
        id: MapId,
        update: F,
    ) -> (result: Option<R>)
        requires
            forall|map: &mut MapItemSavedData|
                old(self)@.maps.contains_key(id@) && map@ == old(self)@.maps[id@]
                    ==> #[trigger] call_requires(update, (map,)),
        ensures
            match result {
                None => !old(self)@.maps.contains_key(id@) && final(self)@ == old(self)@,
                Some(returned) => {
                    &&& old(self)@.maps.contains_key(id@)
                    &&& exists|map: &mut MapItemSavedData| #[trigger]
                        call_ensures(update, (map,), returned) && map@ == old(self)@.maps[id@]
                            && final(self)@ == old(self)@.with_updated_map(id@, final(map)@)
                },
            },
            old(self)@.valid() ==> final(self)@.valid(),
    {
        let key: i32 = id.id();
        assert(self@.maps.contains_key(key) == self.state.maps@.contains_key(key));
        let ghost mut updated = self@.maps[key];
        let result = match map_mut(&mut self.state.maps, key) {
            Some(map) => {
                let result = update(&mut *map);
                proof {
                    use_type_invariant(&*map);
                    updated = map@;
                }
                result
            },
            None => return None,
        };
        self.state.revision = self.state.revision.wrapping_add(1);
        assert(self@ == old(self)@.with_updated_map(id@, updated));
        let returned = Some(result);
        assert(returned->0 == result);
        returned
    }

    /// Lists everything that is to be saved, with the revision that it is, or returns
    /// `None` where the latest revision is saved.
    pub fn persistent_snapshot(&self) -> (result: Option<(u64, PersistentMapData)>)
        ensures
            match result {
                None => !self@.changed(),
                Some((revision, persistent)) => {
                    &&& self@.changed()
                    &&& revision == self@.revision
                    &&& self@.is_listed_by(persistent@)
                },
            },
    {
        if self.state.revision == self.state.saved_revision {
            return None;
        }
        let entries = self.state.maps.iter();
        let ghost listed = entries.remaining();
        proof {
            let keys = listed.map_values(|entry: (&i32, &MapItemSavedData)| *entry.0);
            assert(increasing_seq(keys));
            assert forall|i: int, j: int| 0 <= i < j < listed.len() implies *listed[i].0
                < *listed[j].0 by {
                assert(keys[i].cmp_spec(&keys[j]) is Less);
            }
        }
        let mut maps: Vec<PersistentMapItemSavedData> = Vec::new();
        for entry in iter: entries
            invariant
                iter.seq() == listed,
                maps@.len() == iter.index(),
                forall|i: int|
                    #![trigger maps@[i]]
                    0 <= i < maps@.len() ==> maps@[i]@ == (MapRecordModel {
                        id: *listed[i].0,
                        map: listed[i].1@,
                    }),
        {
            let (id, map): (&i32, &MapItemSavedData) = entry;
            maps.push(map.to_record(*id));
        }
        let persistent = PersistentMapData { last_map_id: self.state.last_map_id, maps };
        proof {
            let records = persistent@.maps;
            assert forall|id: i32| #[trigger] self@.maps.contains_key(id) implies exists|i: int|
                0 <= i < records.len() && (#[trigger] records[i]).id == id by {
                assert(self.state.maps@.contains_key(id));
                assert(listed.contains((&id, &self.state.maps@[id])));
                let i = choose|i: int|
                    0 <= i < listed.len() && listed[i] == (&id, &self.state.maps@[id]);
                assert(records[i].id == id);
            }
        }
        Some((self.state.revision, persistent))
    }

    /// Notes that the given revision was written. Where the maps have changed since,
    /// they stay changed.
    pub fn finish_save(&mut self, revision: u64)
        ensures
            final(self)@ == old(self)@.with_saved(revision),
    {
        if self.state.revision == revision {
            self.state.saved_revision = revision;
        }
    }

    /// Concludes a save: `written` says which revision was handed out to be written and how
    /// that went, or is `None` where there was nothing to save. Returns whether something
    /// was saved.
    pub fn save<E>(&mut self, written: Option<(u64, Result<(), E>)>) -> (result: Result<bool, E>)
        ensures
            match written {
                None => result == Ok::<bool, E>(false) && final(self)@ == old(self)@,
                Some((revision, Ok(()))) => {
                    &&& result == Ok::<bool, E>(true)
                    &&& final(self)@ == old(self)@.with_saved(revision)
                },
                Some((_, Err(error))) => {
                    &&& result == Err::<bool, E>(error)
                    &&& final(self)@ == old(self)@
                },
            },
    {
        match written {
            None => Ok(false),
            Some((revision, Ok(()))) => {
                self.finish_save(revision);
                Ok(true)
            },
            Some((_, Err(error))) => Err(error),
        }
    }
}

/// Records with distinct numbers each keep their place in the maps that they hold.
proof fn lemma_maps_of_values(records: Seq<MapRecordModel>, i: int)
    requires
        0 <= i < records.len(),
        forall|j: int| i < j < records.len() ==> (#[trigger] records[j]).id != records[i].id,
    ensures
        maps_of(records).contains_key(records[i].id),
        maps_of(records)[records[i].id] == records[i].map.with_clamped_scale(),
    decreases records.len(),
{
    if i < records.len() - 1 {
        let rest = records.drop_last();
        assert(forall|j: int| 0 <= j < rest.len() ==> rest[j] == records[j]);
        lemma_maps_of_values(rest, i);
        assert(records.last() == records[records.len() - 1]);
    }
}

/// Where no record from `start` on is refused, there is no first one.
proof fn lemma_no_record_fault(records: Seq<MapRecordModel>, start: int)
    requires
        0 <= start,
        forall|i: int| start <= i < records.len() ==> #[trigger] record_fault(records, i) is None,
    ensures
        first_record_fault(records, start) is None,
    decreases records.len() - start,
{
    if start < records.len() {
        assert(record_fault(records, start) is None);
        lemma_no_record_fault(records, start + 1);
    }
}

/// Where there is no first refused record, none is refused.
proof fn lemma_no_record_refused(records: Seq<MapRecordModel>, start: int, i: int)
    requires
        first_record_fault(records, start) is None,
        start <= i < records.len(),
    ensures
        record_fault(records, i) is None,
    decreases i - start,
{
    if start < i {
        lemma_no_record_refused(records, start + 1, i);
    }
}

/// Every map of saved data that is not refused is loaded under its number, with its scale
/// rounded to one that maps have, and no other map is. What is loaded is valid.
pub proof fn law_saved_data_is_loaded_in_full(persistent: PersistentModel)
    requires
        persistent.fault() is None,
    ensures
        forall|i: int|
            #![trigger persistent.maps[i]]
            0 <= i < persistent.maps.len() ==> {
                let record = persistent.maps[i];
                &&& persistent.loaded().maps.contains_key(record.id)
                &&& persistent.loaded().maps[record.id] == record.map.with_clamped_scale()
            },
        forall|id: i32| #[trigger]
            persistent.loaded().maps.contains_key(id) ==> exists|i: int|
                0 <= i < persistent.maps.len() && (#[trigger] persistent.maps[i]).id == id,
        persistent.loaded().valid(),
{
    let records = persistent.maps;
    assert forall|i: int| #![trigger records[i]] 0 <= i < records.len() implies {
        &&& maps_of(records).contains_key(records[i].id)
        &&& maps_of(records)[records[i].id] == records[i].map.with_clamped_scale()
        &&& records[i].id >= 0
        &&& records[i].map.colors.len() == MAP_COLOR_COUNT
    } by {
        lemma_no_record_refused(records, 0, i);
        assert forall|j: int| i < j < records.len() implies (#[trigger] records[j]).id
            != records[i].id by {
            lemma_no_record_refused(records, 0, j);
        }
        lemma_maps_of_values(records, i);
    }
    assert forall|id: i32| #[trigger] maps_of(records).contains_key(id) implies exists|i: int|
        0 <= i < records.len() && (#[trigger] records[i]).id == id by {
        lemma_maps_of_keys(records, id);
    }
    lemma_maps_of_keys(records, 0);
}

/// What is saved of a domain's maps loads again and gives the same maps and the same
/// last map number, with nothing left to save.
pub proof fn law_saved_maps_load_back(state: MapDataModel, persistent: PersistentModel)
    requires
        state.valid(),
        state.is_listed_by(persistent),
    ensures
        persistent.fault() is None,
        persistent.loaded() == (MapDataModel { revision: 0, saved_revision: 0, ..state }),
{
    let records = persistent.maps;
    assert forall|i: int| 0 <= i < records.len() implies #[trigger] record_fault(
        records,
        i,
    ) is None by {
        assert(state.maps.contains_key(records[i].id));
    }
    lemma_no_record_fault(records, 0);
    assert forall|i: int| 0 <= i < records.len() implies (#[trigger] records[i]).id
        <= persistent.last_map_id by {
        assert(state.maps.contains_key(records[i].id));
    }
    assert forall|id: i32| maps_of(records).contains_key(id) == state.maps.contains_key(id) by {
        lemma_maps_of_keys(records, id);
        if state.maps.contains_key(id) {
            let i = choose|i: int| 0 <= i < records.len() && (#[trigger] records[i]).id == id;
            assert(records[i].id == id);
        }
    }
    assert forall|id: i32| #[trigger] state.maps.contains_key(id) implies maps_of(records)[id]
        == state.maps[id] by {
        let i = choose|i: int| 0 <= i < records.len() && (#[trigger] records[i]).id == id;
        lemma_maps_of_values(records, i);
        assert(state.maps[id] =~= state.maps[id].with_clamped_scale());
    }
    assert(maps_of(records) =~= state.maps);
}

/// A reloaded domain continues the numbering: the next map gets the number that it would
/// have got without the reload, and is stored beside the same maps.
pub proof fn law_numbering_continues_after_reload(
    state: MapDataModel,
    persistent: PersistentModel,
    map: MapItemModel,
)
    requires
        state.valid(),
        state.is_listed_by(persistent),
    ensures
        persistent.loaded().with_new_map(map).last_map_id == state.with_new_map(map).last_map_id,
        persistent.loaded().with_new_map(map).maps == state.with_new_map(map).maps,
{
    law_saved_maps_load_back(state, persistent);
}

/// There is one way to list the maps of a domain.
pub proof fn law_saved_form_is_unique(
    state: MapDataModel,
    persistent: PersistentModel,
    other: PersistentModel,
)
    requires
        state.is_listed_by(persistent),
        state.is_listed_by(other),
    ensures
        persistent == other,
{
    let a = persistent.maps;
    let b = other.maps;
    lemma_listings_agree(state, persistent, other, a.len() as int);
    lemma_listings_agree(state, other, persistent, b.len() as int);
    assert(a =~= b);
}

/// The first `n` records of one listing stand at the same places in another.
proof fn lemma_listings_agree(
    state: MapDataModel,
    persistent: PersistentModel,
    other: PersistentModel,
    n: int,
)
    requires
        state.is_listed_by(persistent),
        state.is_listed_by(other),
        0 <= n <= persistent.maps.len(),
    ensures
        n <= other.maps.len(),
        forall|i: int|
            #![trigger persistent.maps[i]]
            #![trigger other.maps[i]]
            0 <= i < n ==> persistent.maps[i] == other.maps[i],
    decreases n,
{
    if n > 0 {
        let a = persistent.maps;
        let b = other.maps;
        let last = n - 1;
        lemma_listings_agree(state, persistent, other, last);
        assert(state.maps.contains_key(a[last].id));
        let j = choose|j: int| 0 <= j < b.len() && (#[trigger] b[j]).id == a[last].id;
        if j < last {
            assert(a[j] == b[j]);
        }
        assert(state.maps.contains_key(b[last].id));
        let k = choose|k: int| 0 <= k < a.len() && (#[trigger] a[k]).id == b[last].id;
        if k < last {
            assert(a[k] == b[k]);
        }
        assert(a[last].id == b[last].id);
        assert(a[last] =~= b[last]);
    }
}

/// A new map gets a number that no map has, every other map stays as it is, and the
/// domain stays valid.
pub proof fn law_new_maps_get_unused_numbers(state: MapDataModel, map: MapItemModel)
    requires
        state.valid(),
        state.last_map_id < i32::MAX,
        map.valid(),
    ensures
        state.allocation_fault() is None,
        ({
            let id = state.with_new_map(map).last_map_id;
            &&& id == state.last_map_id + 1
            &&& !state.maps.contains_key(id)
            &&& state.with_new_map(map).maps.contains_key(id)
            &&& state.with_new_map(map).maps[id] == map
        }),
        forall|id: i32| #[trigger]
            state.maps.contains_key(id) ==> state.with_new_map(map).maps.contains_key(id)
                && state.with_new_map(map).maps[id] == state.maps[id],
        state.with_new_map(map).valid(),
{
}

/// Updating a map leaves the set of maps, the numbering and every other map as they are,
/// and the domain valid.
pub proof fn law_updates_touch_one_map(state: MapDataModel, id: i32, map: MapItemModel)
    requires
        state.valid(),
        state.maps.contains_key(id),
        map.valid(),
    ensures
        state.with_updated_map(id, map).maps[id] == map,
        state.with_updated_map(id, map).maps.dom() == state.maps.dom(),
        state.with_updated_map(id, map).last_map_id == state.last_map_id,
        forall|other: i32| #[trigger]
            state.maps.contains_key(other) && other != id ==> state.with_updated_map(
                id,
                map,
            ).maps[other] == state.maps[other],
        state.with_updated_map(id, map).valid(),
{
    assert(state.with_updated_map(id, map).maps.dom() =~= state.maps.dom());
}

/// Creating or updating a map leaves something to save, unless the counter of revisions
/// comes round to the saved one.
pub proof fn law_changes_are_to_be_saved(state: MapDataModel, id: i32, map: MapItemModel)
    requires
        next_revision(state.revision) != state.saved_revision,
    ensures
        state.with_new_map(map).changed(),
        state.with_updated_map(id, map).changed(),
{
}

/// Once the current revision is written, nothing is left to save, and the maps are as
/// they were.
pub proof fn law_saving_leaves_nothing_to_save(state: MapDataModel)
    ensures
        !state.with_saved(state.revision).changed(),
        state.with_saved(state.revision).maps == state.maps,
        state.with_saved(state.revision).last_map_id == state.last_map_id,
{
}

/// The revision after a number of changes.
pub open spec fn revision_after(revision: u64, changes: nat) -> u64
    decreases changes,
{
    if changes == 0 {
        revision
    } else {
        next_revision(revision_after(revision, (changes - 1) as nat))
    }
}

/// Maps that changed while a revision was being written are not noted as saved: there is
/// still something to save, unless the counter of revisions has come round to the one saved
/// before.
pub proof fn law_changes_during_a_save_stay_unsaved(
    before: MapDataModel,
    after: MapDataModel,
    changes: nat,
)
    requires
        0 < changes <= u64::MAX,
        after.revision == revision_after(before.revision, changes),
    ensures
        after.with_saved(before.revision) == after,
        after.revision != after.saved_revision ==> after.with_saved(before.revision).changed(),
{
    lemma_revision_after(before.revision, changes);
}

proof fn lemma_revision_after(revision: u64, changes: nat)
    requires
        changes <= u64::MAX,
    ensures
        revision_after(revision, changes) == if revision + changes <= u64::MAX {
            revision + changes
        } else {
            revision + changes - u64::MAX - 1
        },
    decreases changes,
{
    if changes > 0 {
        lemma_revision_after(revision, (changes - 1) as nat);
    }
}

/// Whether records can stand together: none has a negative number, all have 128 times 128
/// colours, and no two have the same number.
pub open spec fn sound(records: Seq<MapRecordModel>) -> bool {
    &&& forall|i: int|
        #![trigger records[i]]
        0 <= i < records.len() ==> records[i].id >= 0 && records[i].map.colors.len() == 128 * 128
    &&& forall|i: int, j: int|
        #![trigger records[i], records[j]]
        0 <= i < j < records.len() ==> records[i].id != records[j].id
}

/// The first refused record follows records that can stand together.
proof fn lemma_first_record_fault(records: Seq<MapRecordModel>, start: int) -> (k: int)
    requires
        0 <= start <= records.len(),
        sound(records.take(start)),
    ensures
        start <= k <= records.len(),
        sound(records.take(k)),
        match first_record_fault(records, start) {
            None => k == records.len(),
            Some(error) => k < records.len() && record_fault(records, k) == Some(error),
        },
    decreases records.len() - start,
{
    if start == records.len() || record_fault(records, start) is Some {
        start
    } else {
        let longer = records.take(start + 1);
        assert(forall|i: int| 0 <= i < start ==> longer[i] == records.take(start)[i]);
        assert forall|i: int, j: int|
            #![trigger longer[i], longer[j]]
            0 <= i < j < longer.len() implies longer[i].id != longer[j].id by {
            if j < start {
                assert(records.take(start)[i].id != records.take(start)[j].id);
            } else {
                assert(records[i] == longer[i]);
            }
        }
        lemma_first_record_fault(records, start + 1)
    }
}

/// Saved data is refused for the first thing that is wrong with it. That is a last map
/// number below -1; failing that, the first record that cannot stand together with those
/// before it, for its number, for its colours or for having the number of one of them;
/// failing that, a record with a number above the last map number.
pub proof fn law_refusals_name_the_first_fault(persistent: PersistentModel)
    ensures
        ({
            let last = persistent.last_map_id;
            let records = persistent.maps;
            match persistent.fault() {
                None => {
                    &&& last >= -1
                    &&& sound(records)
                    &&& forall|i: int|
                        0 <= i < records.len() ==> (#[trigger] records[i]).id <= last
                },
                Some(MapDataError::InvalidLastMapId { last_map_id }) => {
                    &&& last < -1
                    &&& last_map_id == last
                },
                Some(MapDataError::NegativeMapId { id }) => {
                    &&& last >= -1
                    &&& exists|k: int|
                        #![trigger records[k]]
                        {
                            &&& 0 <= k < records.len()
                            &&& sound(records.take(k))
                            &&& records[k].id == id
                            &&& id < 0
                        }
                },
                Some(MapDataError::ColorBufferLength { id, length }) => {
                    &&& last >= -1
                    &&& exists|k: int|
                        #![trigger records[k]]
                        {
                            &&& 0 <= k < records.len()
                            &&& sound(records.take(k))
                            &&& records[k].id == id
                            &&& id >= 0
                            &&& records[k].map.colors.len() != 128 * 128
                            &&& records[k].map.colors.len() as usize == length
                        }
                },
                Some(MapDataError::DuplicateMapId { id }) => {
                    &&& last >= -1
                    &&& exists|j: int, k: int|
                        #![trigger records[j], records[k]]
                        {
                            &&& 0 <= j < k < records.len()
                            &&& sound(records.take(k))
                            &&& records[k].id == id
                            &&& id >= 0
                            &&& records[k].map.colors.len() == 128 * 128
                            &&& records[j].id == id
                        }
                },
                Some(MapDataError::LastMapIdPrecedesMap) => {
                    &&& last >= -1
                    &&& sound(records)
                    &&& exists|k: int|
                        0 <= k < records.len() && (#[trigger] records[k]).id > last
                },
                Some(_) => false,
            }
        }),
{
    let records = persistent.maps;
    let k = lemma_first_record_fault(records, 0);
    if first_record_fault(records, 0) is None {
        assert(records.take(k) =~= records);
    } else {
        assert(records[k] == records[k]);
    }
}

/// What is loaded has the last map number that was saved, and is saved already.
pub proof fn law_loading_leaves_nothing_to_save(persistent: PersistentModel)
    ensures
        persistent.loaded().last_map_id == persistent.last_map_id,
        persistent.loaded().revision == persistent.loaded().saved_revision,
{
}

/// Saved data holds the last map number and the records that its fields hold, in order.
pub proof fn law_saved_data_is_its_fields(persistent: PersistentMapData)
    ensures
        persistent@.last_map_id == persistent.last_map_id,
        persistent@.maps.len() == persistent.maps.len(),
        forall|i: int|
            0 <= i < persistent.maps.len() ==> #[trigger] persistent@.maps[i]
                == persistent.maps[i]@,
{
}

/// A domain starts without maps, so that the first one gets the number 0, and with nothing
/// to save.
pub proof fn law_domains_start_empty(id: i32, map: MapItemModel)
    ensures
        !no_maps().maps.contains_key(id),
        no_maps().allocation_fault() is None,
        no_maps().with_new_map(map).last_map_id == 0,
        no_maps().revision == no_maps().saved_revision,
{
}

/// A domain is valid where its maps are valid and finitely many, with numbers from 0 to the
/// last map number, which is -1 or more.
pub proof fn law_valid_domains(state: MapDataModel)
    ensures
        state.valid() <==> {
            &&& state.last_map_id >= -1
            &&& state.maps.dom().finite()
            &&& forall|id: i32|
                state.maps.contains_key(id) ==> {
                    &&& 0 <= id <= state.last_map_id
                    &&& 0 <= (#[trigger] state.maps[id]).scale <= 4
                    &&& state.maps[id].colors.len() == 128 * 128
                }
        },
{
    if !state.valid() && state.last_map_id >= -1 && state.maps.dom().finite() {
        let id = choose|id: i32| #[trigger]
            state.maps.contains_key(id) && !(0 <= id <= state.last_map_id
                && state.maps[id].valid());
        assert(!(0 <= state.maps[id].scale <= 4) || state.maps[id].colors.len() != 128 * 128 || !(0
            <= id <= state.last_map_id));
    }
}

/// A map can be stored unless the last map number is the largest there is, or the number
/// after it is taken. The refusal says which.
pub proof fn law_maps_are_refused_for_want_of_a_number(state: MapDataModel)
    ensures
        match state.allocation_fault() {
            None => {
                &&& state.last_map_id < 2147483647
                &&& !state.maps.contains_key((state.last_map_id + 1) as i32)
            },
            Some(MapDataError::MapIdsExhausted) => state.last_map_id == 2147483647,
            Some(MapDataError::MapIdAllocated { id }) => {
                &&& state.last_map_id < 2147483647
                &&& id == state.last_map_id + 1
                &&& state.maps.contains_key(id)
            },
            Some(_) => false,
        },
{
}

/// Storing or updating a map counts the revision up by one, from the largest to 0, and
/// leaves the saved revision as it is.
pub proof fn law_changes_count_the_revision_up(state: MapDataModel, id: i32, map: MapItemModel)
    ensures
        state.with_new_map(map).revision as int == (state.revision + 1) % 0x1_0000_0000_0000_0000,
        state.with_new_map(map).saved_revision == state.saved_revision,
        state.with_updated_map(id, map).revision as int == (state.revision + 1)
            % 0x1_0000_0000_0000_0000,
        state.with_updated_map(id, map).saved_revision == state.saved_revision,
{
}

/// Storing a map puts it under the number after the last one and leaves every other number
/// with the map that it has, or without one.
pub proof fn law_storing_adds_one_map(state: MapDataModel, map: MapItemModel, id: i32)
    requires
        state.last_map_id < 2147483647,
    ensures
        ({
            let after = state.with_new_map(map);
            &&& after.last_map_id == state.last_map_id + 1
            &&& after.maps.contains_key(id) <==> id == state.last_map_id + 1
                || state.maps.contains_key(id)
            &&& id == state.last_map_id + 1 ==> after.maps[id] == map
            &&& id != state.last_map_id + 1 && state.maps.contains_key(id) ==> after.maps[id]
                == state.maps[id]
        }),
{
}

/// Updating a map puts the new one under its number, leaves every other number with the map
/// that it has, or without one, and leaves the numbering as it is.
pub proof fn law_updating_replaces_one_map(
    state: MapDataModel,
    id: i32,
    map: MapItemModel,
    other: i32,
)
    ensures
        ({
            let after = state.with_updated_map(id, map);
            &&& after.last_map_id == state.last_map_id
            &&& after.maps.contains_key(other) <==> other == id || state.maps.contains_key(other)
            &&& other == id ==> after.maps[other] == map
            &&& other != id && state.maps.contains_key(other) ==> after.maps[other]
                == state.maps[other]
        }),
{
}

/// Noting a written revision makes it the saved one where it is the current one, and changes
/// nothing where it is not. The maps, the numbering and the revision stay as they are.
/// There is something to save where the current revision is not the saved one.
pub proof fn law_written_revisions_are_noted_while_current(state: MapDataModel, revision: u64)
    ensures
        state.with_saved(revision).last_map_id == state.last_map_id,
        state.with_saved(revision).maps == state.maps,
        state.with_saved(revision).revision == state.revision,
        revision == state.revision ==> state.with_saved(revision).saved_revision == revision,
        revision != state.revision ==> state.with_saved(revision).saved_revision
            == state.saved_revision,
        state.changed() <==> state.revision != state.saved_revision,
{
}

/// A list of a domain's maps has the last map number of the domain, one record for each map,
/// with what the map holds, and the records in ascending order of their numbers.
pub proof fn law_listings_hold_each_map_once(state: MapDataModel, persistent: PersistentModel)
    requires
        state.is_listed_by(persistent),
    ensures
        persistent.last_map_id == state.last_map_id,
        forall|i: int, j: int|
            #![trigger persistent.maps[i], persistent.maps[j]]
            0 <= i < j < persistent.maps.len() ==> persistent.maps[i].id < persistent.maps[j].id,
        forall|i: int|
            #![trigger persistent.maps[i]]
            0 <= i < persistent.maps.len() ==> {
                &&& state.maps.contains_key(persistent.maps[i].id)
                &&& state.maps[persistent.maps[i].id] == persistent.maps[i].map
            },
        forall|id: i32| #[trigger]
            state.maps.contains_key(id) ==> exists|i: int|
                0 <= i < persistent.maps.len() && (#[trigger] persistent.maps[i]).id == id,
{
}

} // verus!
