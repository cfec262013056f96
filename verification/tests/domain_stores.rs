//! The stores of all domains, and how errors are reported.

use map_data::domains::LoadStep;
use map_data::error::{domain_default_world, map_data_io_error, ErrorKind, IoError};
use map_data::names::{place, Place};
use map_data::{DomainMapData, Identifier, MapDataError, MapDataStore, MapId, NewMapData, World};

fn world(key: &str, domain: &str) -> World {
    World { key: Identifier::new(key.to_string()), domain: domain.to_string() }
}

fn names(domains: &[&str]) -> Vec<String> {
    domains.iter().map(|domain| domain.to_string()).collect()
}

fn filled(domains: &[&str]) -> DomainMapData<usize> {
    let mut map_data = DomainMapData::new();
    for (number, domain) in domains.iter().enumerate() {
        map_data.insert(domain.to_string(), number);
    }
    map_data
}

fn order<S>(map_data: &DomainMapData<S>) -> Vec<String> {
    let mut run = map_data.save_all();
    let mut found = Vec::new();
    while let Some(entry) = run.next_domain() {
        found.push(entry.domain.clone());
        assert!(run.domain_saved::<()>(Ok(false)).is_ok());
    }
    found
}

#[test]
fn domains_are_found_by_name() {
    let map_data = filled(&["b", "a", "minecraft", "ab"]);
    assert_eq!(map_data.get("a"), Some(&1));
    assert_eq!(map_data.get("b"), Some(&0));
    assert_eq!(map_data.get("ab"), Some(&3));
    assert_eq!(map_data.get("minecraft"), Some(&2));
    assert_eq!(map_data.get("mine"), None);
    assert_eq!(map_data.get(""), None);
}

#[test]
fn a_later_store_replaces_an_earlier_one() {
    let map_data = filled(&["x", "y", "x"]);
    assert_eq!(map_data.get("x"), Some(&2));
    assert_eq!(order(&map_data), names(&["x", "y"]));
}

#[test]
fn domains_stand_in_the_order_of_strings() {
    let unordered = ["z", "", "\u{e9}", "ab", "a", "Z", "\u{1f600}", "aa", "\u{ffff}"];
    let mut expected = names(&unordered);
    expected.sort();
    assert_eq!(order(&filled(&unordered)), expected);
}

#[test]
fn names_are_compared_as_strings_are() {
    assert_eq!(place("a", "b"), Place::Before);
    assert_eq!(place("b", "a"), Place::After);
    assert_eq!(place("a", "a"), Place::Same);
    assert_eq!(place("a", "aa"), Place::Before);
    assert_eq!(place("aa", "a"), Place::After);
    assert_eq!(place("\u{ffff}", "\u{1f600}"), Place::Before);
}

#[test]
fn domains_are_loaded_before_worlds_are_bound() {
    let worlds = vec![world("b:one", "b"), world("a:one", "a"), world("b:two", "b")];
    let mut run = DomainMapData::load_and_bind(names(&["a", "b"]), worlds);
    assert_eq!(run.step(), LoadStep::LoadDomain(0));
    assert!(run.domain_loaded::<()>(Ok("store of a")).is_ok());
    assert_eq!(run.step(), LoadStep::LoadDomain(1));
    assert!(run.domain_loaded::<()>(Ok("store of b")).is_ok());
    let mut bound = Vec::new();
    while let LoadStep::BindWorld(number) = run.step() {
        bound.push((number, *run.owner().unwrap()));
        assert_eq!(run.world_bound::<()>(Ok(())), Ok(()));
    }
    assert_eq!(bound, vec![(0, "store of b"), (1, "store of a"), (2, "store of b")]);
    assert_eq!(run.step(), LoadStep::Finished);
    let map_data = run.finish();
    assert_eq!(map_data.get("a"), Some(&"store of a"));
    assert_eq!(map_data.get("b"), Some(&"store of b"));
    assert_eq!(map_data.get("c"), None);
}

#[test]
fn nothing_to_load_is_finished_at_once() {
    let run = DomainMapData::<()>::load_and_bind(vec![], vec![]);
    assert_eq!(run.step(), LoadStep::Finished);
    assert_eq!(run.finish().get("a"), None);
}

#[test]
fn worlds_of_unknown_domains_have_no_owner() {
    let worlds = vec![world("a:one", "a"), world("c:hub", "c")];
    let mut run = DomainMapData::load_and_bind(names(&["a"]), worlds);
    assert!(run.domain_loaded::<()>(Ok(1)).is_ok());
    assert_eq!(run.owner(), Ok(&1));
    assert_eq!(run.world_bound::<()>(Ok(())), Ok(()));
    let error = run.owner().unwrap_err();
    assert_eq!(error.kind(), ErrorKind::NotFound);
    assert_eq!(error.message(), "loaded world c:hub has no map-data owner for domain c");
}

#[test]
fn load_errors_name_their_domain() {
    let mut run = DomainMapData::load_and_bind(names(&["a", "b"]), vec![world("b:one", "b")]);
    assert!(run.domain_loaded::<u8>(Ok(1)).is_ok());
    let failure = IoError { kind: 5, message: "unreadable".to_string() };
    let error = run.domain_loaded(Err(failure)).unwrap_err();
    assert_eq!(error.kind, 5);
    assert_eq!(error.message, "map-data I/O failed for domain 'b': unreadable");
    assert_eq!(run.step(), LoadStep::LoadDomain(1));
}

#[test]
fn a_missing_default_world_is_reported_as_it_is() {
    let mut run = DomainMapData::<()>::load_and_bind(names(&["a", "b"]), vec![]);
    assert_eq!(run.default_world(Some("a:one")), Ok("a:one"));
    assert!(run.domain_loaded::<()>(Ok(())).is_ok());
    let error = run.default_world::<()>(None).unwrap_err();
    assert_eq!(error.message(), "domain 'b' has no loaded default world");
}

#[test]
fn a_failed_bind_is_reported_as_it_is() {
    let worlds = vec![world("a:one", "a"), world("a:two", "a")];
    let mut run = DomainMapData::load_and_bind(names(&["a"]), worlds);
    assert!(run.domain_loaded::<()>(Ok(1)).is_ok());
    assert_eq!(run.world_bound::<&str>(Ok(())), Ok(()));
    assert_eq!(run.world_bound(Err("already bound")), Err("already bound"));
    assert_eq!(run.step(), LoadStep::BindWorld(1));
}

#[test]
fn saved_domains_are_counted() {
    let map_data = filled(&["a", "b", "c"]);
    let mut run = map_data.save_all();
    for outcome in [true, false, true] {
        assert!(run.next_domain().is_some());
        assert!(run.domain_saved::<()>(Ok(outcome)).is_ok());
    }
    assert!(run.next_domain().is_none());
    assert_eq!(run.saved(), 2);
}

#[test]
fn save_errors_name_their_domain() {
    let map_data = filled(&["b", "a"]);
    let mut run = map_data.save_all();
    assert_eq!(run.next_domain().map(|entry| entry.store), Some(1));
    assert!(run.domain_saved::<i32>(Ok(true)).is_ok());
    let failure = IoError { kind: 28, message: "disk full".to_string() };
    let error = run.domain_saved(Err(failure)).unwrap_err();
    assert_eq!(error.kind, 28);
    assert_eq!(error.message, "map-data I/O failed for domain 'b': disk full");
    assert_eq!(run.saved(), 1);
}

#[test]
fn io_errors_keep_their_kind() {
    let error = IoError { kind: 'k', message: "broken".to_string() };
    let reported = map_data_io_error("minecraft", error);
    assert_eq!(reported.kind, 'k');
    assert_eq!(reported.message, "map-data I/O failed for domain 'minecraft': broken");
}

#[test]
fn default_worlds_are_handed_through() {
    assert_eq!(domain_default_world(Some(5), "a"), Ok(5));
    let error = domain_default_world::<i32>(None, "a").unwrap_err();
    assert_eq!(error, MapDataError::NoDefaultWorld { domain: "a".to_string() });
    assert_eq!(error.kind(), ErrorKind::NotFound);
    assert_eq!(error.message(), "domain 'a' has no loaded default world");
}

#[test]
fn errors_are_reported_with_kind_and_text() {
    let cases = [
        (MapDataError::InvalidLastMapId { last_map_id: -2 }, "invalid last map ID -2"),
        (MapDataError::NegativeMapId { id: i32::MIN }, "invalid negative map ID -2147483648"),
        (
            MapDataError::ColorBufferLength { id: 10, length: 0 },
            "map 10 color buffer has length 0, expected 16384",
        ),
        (MapDataError::DuplicateMapId { id: 907 }, "duplicate map ID 907"),
        (MapDataError::LastMapIdPrecedesMap, "last map ID precedes an allocated map"),
        (MapDataError::MapIdAllocated { id: 12 }, "map ID 12 is already allocated"),
    ];
    for (error, text) in cases {
        assert_eq!(error.kind(), ErrorKind::InvalidData);
        assert_eq!(error.message(), text);
    }
    assert_eq!(MapDataError::MapIdsExhausted.kind(), ErrorKind::Other);
    assert_eq!(MapDataError::MapIdsExhausted.message(), "map ID space is exhausted");
}

/// Saves the stores by the domains that own them and counts the writes of each.
fn save_everything(
    map_data: &DomainMapData<usize>,
    stores: &mut [MapDataStore],
    writes: &mut [usize],
) -> usize {
    let mut run = map_data.save_all();
    while let Some(entry) = run.next_domain() {
        let store = &mut stores[entry.store];
        let written = store.persistent_snapshot().map(|(revision, _)| {
            writes[entry.store] += 1;
            (revision, Ok::<(), IoError<()>>(()))
        });
        let outcome = store.save(written);
        assert!(run.domain_saved(outcome).is_ok());
    }
    run.saved()
}

#[test]
fn saving_all_counts_the_changed_stores_and_again_none() {
    let map_data = filled(&["c", "a", "b"]);
    let mut stores: Vec<MapDataStore> = Vec::new();
    for _ in 0..3 {
        stores.push(MapDataStore::load(None).ok().unwrap());
    }
    let place = world("a:one", "a");
    for number in [0, 2] {
        let map = NewMapData::blank(&place, 0, 0, 0, true, true);
        assert_eq!(stores[number].create_map(map), Ok(MapId::new(0)));
    }
    let mut writes = [0; 3];
    assert_eq!(save_everything(&map_data, &mut stores, &mut writes), 2);
    assert_eq!(writes, [1, 0, 1]);
    assert_eq!(save_everything(&map_data, &mut stores, &mut writes), 0);
    assert_eq!(writes, [1, 0, 1]);
    let copy = stores[0].get(MapId::new(0)).unwrap();
    assert_eq!(stores[1].insert(copy), Ok(MapId::new(0)));
    assert_eq!(save_everything(&map_data, &mut stores, &mut writes), 1);
    assert_eq!(writes, [1, 1, 1]);
}
