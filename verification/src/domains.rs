//! The map stores of all domains: loading them, binding worlds to them and saving them.
//!
//! Reading and writing a store, and binding a world, happen outside. [`LoadAndBind`] and
//! [`SaveAll`] say what is to be done next and take in how it went.

use vstd::prelude::*;

use crate::error::{
    domain_default_world, io_error_message, map_data_io_error, IoError, MapDataError,
};
use crate::ids::{World, WorldModel};
use crate::names::{
    law_name_order_is_strict, law_name_order_is_transitive, name_before, place, Place,
};
use crate::store::MapDataModel;

verus! {

/// A domain with its map store.
#[derive(Debug)]
pub struct DomainEntry<S> {
    pub domain: String,
    pub store: S,
}

/// Map stores keyed by domain.
#[derive(Debug)]
pub struct DomainMapData<S> {
    domains: Vec<DomainEntry<S>>,
}

impl<S> View for DomainMapData<S> {
    type V = Map<Seq<char>, S>;

    /// The store of each domain.
    closed spec fn view(&self) -> Map<Seq<char>, S> {
        stores_by_name(self.domains@)
    }
}

spec fn has_name<S>(entries: Seq<DomainEntry<S>>, i: int, name: Seq<char>) -> bool {
    0 <= i < entries.len() && entries[i].domain@ == name
}

spec fn stores_by_name<S>(entries: Seq<DomainEntry<S>>) -> Map<Seq<char>, S> {
    Map::new(
        |name: Seq<char>| exists|i: int| has_name(entries, i, name),
        |name: Seq<char>| entries[choose|i: int| has_name(entries, i, name)].store,
    )
}

spec fn names_of<S>(entries: Seq<DomainEntry<S>>) -> Seq<Seq<char>> {
    entries.map_values(|entry: DomainEntry<S>| entry.domain@)
}

/// Whether the names stand in order, each once.
pub open spec fn in_order(names: Seq<Seq<char>>) -> bool {
    forall|i: int, j: int| 0 <= i < j < names.len() ==> name_before(names[i], names[j])
}

/// Where the names stand in order, a name stands at one place only.
proof fn lemma_one_place<S>(entries: Seq<DomainEntry<S>>, i: int)
    requires
        in_order(names_of(entries)),
        0 <= i < entries.len(),
    ensures
        stores_by_name(entries).contains_key(entries[i].domain@),
        stores_by_name(entries)[entries[i].domain@] == entries[i].store,
{
    let name = entries[i].domain@;
    assert(has_name(entries, i, name));
    let j = choose|j: int| has_name(entries, j, name);
    let names = names_of(entries);
    assert(names[i] == names[j]);
    law_name_order_is_strict(name);
}

/// Where the entry at `i` is new or replaces one of the same name, and all others are as
/// they were, its domain has its store and the other domains have theirs.
proof fn lemma_stores_insert<S>(
    before: Seq<DomainEntry<S>>,
    after: Seq<DomainEntry<S>>,
    i: int,
)
    requires
        in_order(names_of(before)),
        in_order(names_of(after)),
        0 <= i < after.len(),
        forall|j: int|
            #![trigger after[j]]
            0 <= j < after.len() && j != i ==> before.contains(after[j]),
        forall|k: int|
            #![trigger before[k]]
            0 <= k < before.len() && before[k].domain@ != after[i].domain@ ==> after.contains(
                before[k],
            ),
    ensures
        stores_by_name(after) == stores_by_name(before).insert(after[i].domain@, after[i].store),
{
    let name = after[i].domain@;
    lemma_one_place(after, i);
    assert forall|other: Seq<char>|
        #![trigger stores_by_name(after).contains_key(other)]
        #![trigger stores_by_name(before).contains_key(other)]
        other != name implies {
        &&& stores_by_name(after).contains_key(other) == stores_by_name(before).contains_key(other)
        &&& stores_by_name(after).contains_key(other) ==> stores_by_name(after)[other]
            == stores_by_name(before)[other]
    } by {
        if stores_by_name(after).contains_key(other) {
            let j = choose|j: int| has_name(after, j, other);
            assert(before.contains(after[j]));
            let k = choose|k: int| 0 <= k < before.len() && before[k] == after[j];
            lemma_one_place(after, j);
            lemma_one_place(before, k);
        }
        if stores_by_name(before).contains_key(other) {
            let k = choose|k: int| has_name(before, k, other);
            assert(after.contains(before[k]));
            let j = choose|j: int| 0 <= j < after.len() && after[j] == before[k];
            lemma_one_place(after, j);
        }
    }
    assert(stores_by_name(after) =~= stores_by_name(before).insert(name, after[i].store));
}

impl<S> DomainMapData<S> {
    /// The names of the domains, in order.
    pub closed spec fn names(self) -> Seq<Seq<char>> {
        names_of(self.domains@)
    }

    /// Whether the domains stand in order, each once.
    pub open spec fn valid(self) -> bool {
        in_order(self.names())
    }

    /// Map data without domains.
    pub fn new() -> (result: Self)
        ensures
            result@ == Map::<Seq<char>, S>::empty(),
            result.names() == Seq::<Seq<char>>::empty(),
            result.valid(),
    {
        let result = DomainMapData { domains: Vec::new() };
        assert(result@ =~= Map::<Seq<char>, S>::empty());
        assert(result.names() =~= Seq::<Seq<char>>::empty());
        result
    }

    /// Looks for a domain. Where it is not there, the place where it belongs comes back.
    fn find(&self, domain: &str) -> (result: Result<usize, usize>)
        requires
            self.valid(),
        ensures
            match result {
                Ok(i) => i < self.domains.len() && self.domains[i as int].domain@ == domain@,
                Err(i) => {
                    &&& i <= self.domains.len()
                    &&& forall|j: int|
                        0 <= j < i ==> name_before(#[trigger] self.names()[j], domain@)
                    &&& forall|j: int|
                        i <= j < self.names().len() ==> name_before(
                            domain@,
                            #[trigger] self.names()[j],
                        )
                },
            },
    {
        let mut i: usize = 0;
        while i < self.domains.len()
            invariant
                self.valid(),
                i <= self.domains.len(),
                forall|j: int| 0 <= j < i ==> name_before(#[trigger] self.names()[j], domain@),
            decreases self.domains.len() - i,
        {
            assert(self.names()[i as int] == self.domains[i as int].domain@);
            match place(self.domains[i].domain.as_str(), domain) {
                Place::Before => {
                    i += 1;
                },
                Place::Same => {
                    return Ok(i);
                },
                Place::After => {
                    proof {
                        assert forall|j: int| i <= j < self.names().len() implies name_before(
                            domain@,
                            #[trigger] self.names()[j],
                        ) by {
                            if j > i {
                                law_name_order_is_transitive(
                                    domain@,
                                    self.names()[i as int],
                                    self.names()[j],
                                );
                            }
                        }
                    }
                    return Err(i);
                },
            }
        }
        Err(i)
    }

    /// Returns the map store owned by `domain`.
    pub fn get(&self, domain: &str) -> (result: Option<&S>)
        requires
            self.valid(),
        ensures
            match result {
                Some(store) => self@.contains_key(domain@) && *store == self@[domain@],
                None => !self@.contains_key(domain@),
            },
    {
        match self.find(domain) {
            Ok(i) => {
                proof {
                    lemma_one_place(self.domains@, i as int);
                }
                Some(&self.domains[i].store)
            },
            Err(_) => {
                proof {
                    assert forall|j: int| !has_name(self.domains@, j, domain@) by {
                        if has_name(self.domains@, j, domain@) {
                            assert(self.names()[j] == domain@);
                            law_name_order_is_strict(domain@);
                        }
                    }
                }
                None
            },
        }
    }

    /// Gives a domain its map store, in place of the one that it may have.
    pub fn insert(&mut self, domain: String, store: S)
        requires
            old(self).valid(),
        ensures
            final(self)@ == old(self)@.insert(domain@, store),
            final(self).valid(),
    {
        let ghost before = self.domains@;
        let found = self.find(domain.as_str());
        let entry = DomainEntry { domain, store };
        match found {
            Ok(i) => {
                self.domains.set(i, entry);
                proof {
                    assert(self.names() =~= names_of(before));
                    assert forall|k: int|
                        #![trigger before[k]]
                        0 <= k < before.len() && k != i implies self.domains@.contains(
                        before[k],
                    ) by {
                        assert(self.domains@[k] == before[k]);
                    }
                    lemma_stores_insert(before, self.domains@, i as int);
                }
            },
            Err(i) => {
                self.domains.insert(i, entry);
                proof {
                    assert(self.names() =~= names_of(before).insert(i as int, domain@));
                    assert forall|k: int|
                        #![trigger before[k]]
                        0 <= k < before.len() implies self.domains@.contains(before[k]) by {
                        if k < i {
                            assert(self.domains@[k] == before[k]);
                        } else {
                            assert(self.domains@[k + 1] == before[k]);
                        }
                    }
                    lemma_stores_insert(before, self.domains@, i as int);
                }
            },
        }
    }
}

/// The names are those of the domains that have a map store.
pub proof fn law_names_are_those_of_the_domains<S>(map_data: DomainMapData<S>, name: Seq<char>)
    ensures
        map_data.names().contains(name) <==> map_data@.contains_key(name),
{
    let entries = map_data.domains@;
    if map_data.names().contains(name) {
        let i = choose|i: int| 0 <= i < map_data.names().len() && map_data.names()[i] == name;
        assert(has_name(entries, i, name));
    }
    if map_data@.contains_key(name) {
        let i = choose|i: int| has_name(entries, i, name);
        assert(map_data.names()[i] == name);
    }
}

/// What is to be done next to load all domains and bind all worlds.
#[derive(Debug, Clone, Copy, PartialEq, Eq, Structural)]
pub enum LoadStep {
    /// Load the map store of the domain at this place.
    LoadDomain(usize),
    /// Bind the world at this place to the map store of its domain.
    BindWorld(usize),
    /// Everything is loaded and bound.
    Finished,
}

/// How far loading and binding has come.
pub struct LoadModel<S> {
    pub domains: Seq<Seq<char>>,
    pub worlds: Seq<WorldModel>,
    pub loaded: nat,
    pub bound: nat,
    pub stores: Map<Seq<char>, S>,
}

impl<S> LoadModel<S> {
    /// Whether the domains that have a store are those that were loaded, no world was bound
    /// before all of them were, and every bound world has the store of its domain.
    pub open spec fn valid(self) -> bool {
        &&& self.loaded <= self.domains.len() <= usize::MAX
        &&& self.bound <= self.worlds.len() <= usize::MAX
        &&& self.bound > 0 ==> self.loaded == self.domains.len()
        &&& forall|i: int|
            0 <= i < self.bound ==> self.stores.contains_key((#[trigger] self.worlds[i]).domain)
        &&& forall|name: Seq<char>| #[trigger]
            self.stores.contains_key(name) <==> self.domains.take(self.loaded as int).contains(name)
    }

    /// What is to be done next: first the domains in order, then the worlds in order.
    pub open spec fn step(self) -> LoadStep {
        if self.loaded < self.domains.len() {
            LoadStep::LoadDomain(self.loaded as usize)
        } else if self.bound < self.worlds.len() {
            LoadStep::BindWorld(self.bound as usize)
        } else {
            LoadStep::Finished
        }
    }

    /// The state after the next domain was loaded.
    pub open spec fn with_domain_loaded(self, store: S) -> Self {
        LoadModel {
            loaded: self.loaded + 1,
            stores: self.stores.insert(self.domains[self.loaded as int], store),
            ..self
        }
    }

    /// The state after the next world was bound.
    pub open spec fn with_world_bound(self) -> Self {
        LoadModel { bound: self.bound + 1, ..self }
    }
}

/// Loading one shared map store for every domain and binding every world to the store of
/// its domain.
#[derive(Debug)]
pub struct LoadAndBind<S> {
    domains: Vec<String>,
    worlds: Vec<World>,
    loaded: usize,
    bound: usize,
    map_data: DomainMapData<S>,
}

impl<S> View for LoadAndBind<S> {
    type V = LoadModel<S>;

    closed spec fn view(&self) -> LoadModel<S> {
        LoadModel {
            domains: self.domains@.map_values(|name: String| name@),
            worlds: self.worlds@.map_values(|world: World| world@),
            loaded: self.loaded as nat,
            bound: self.bound as nat,
            stores: self.map_data@,
        }
    }
}

impl<S> DomainMapData<S> {
    /// Starts to load a map store for each of the domains and to bind the worlds to them.
    pub fn load_and_bind(domains: Vec<String>, worlds: Vec<World>) -> (result: LoadAndBind<S>)
        ensures
            result@.domains == domains@.map_values(|name: String| name@),
            result@.worlds == worlds@.map_values(|world: World| world@),
            result@.loaded == 0,
            result@.bound == 0,
            result@.stores == Map::<Seq<char>, S>::empty(),
            result.valid(),
    {
        assert(domains.len() <= usize::MAX && worlds.len() <= usize::MAX);
        let result = LoadAndBind {
            domains,
            worlds,
            loaded: 0,
            bound: 0,
            map_data: DomainMapData::new(),
        };
        assert(result@.domains.take(0) =~= Seq::<Seq<char>>::empty());
        result
    }
}

proof fn lemma_push_contains<T>(s: Seq<T>, x: T, y: T)
    ensures
        s.push(x).contains(y) <==> s.contains(y) || y == x,
{
    if s.contains(y) {
        let i = choose|i: int| 0 <= i < s.len() && s[i] == y;
        assert(s.push(x)[i] == y);
    }
    assert(s.push(x)[s.len() as int] == x);
}

impl<S> LoadAndBind<S> {
    /// The names of the domains that have a store, in order.
    pub closed spec fn names(self) -> Seq<Seq<char>> {
        self.map_data.names()
    }

    /// Whether the domains that have a store are those that were loaded, each once and in
    /// order.
    pub open spec fn valid(self) -> bool {
        self@.valid() && in_order(self.names())
    }

    /// Returns what is to be done next.
    #[must_use]
    pub fn step(&self) -> (result: LoadStep)
        ensures
            result == self@.step(),
    {
        if self.loaded < self.domains.len() {
            LoadStep::LoadDomain(self.loaded)
        } else if self.bound < self.worlds.len() {
            LoadStep::BindWorld(self.bound)
        } else {
            LoadStep::Finished
        }
    }

    /// Returns the default world of the next domain, given what was found.
    pub fn default_world<W>(&self, found: Option<W>) -> (result: Result<W, MapDataError>)
        requires
            self.valid(),
            self@.step() is LoadDomain,
        ensures
            match (found, result) {
                (Some(world), Ok(default_world)) => default_world == world,
                (None, Err(MapDataError::NoDefaultWorld { domain })) => domain@
                    == self@.domains[self@.loaded as int],
                _ => false,
            },
    {
        domain_default_world(found, self.domains[self.loaded].as_str())
    }

    /// Takes in how loading the next domain went: its map store, or an error, which ends the
    /// run and says which domain it concerns.
    pub fn domain_loaded<K>(&mut self, outcome: Result<S, IoError<K>>) -> (result: Result<
        (),
        IoError<K>,
    >)
        requires
            old(self).valid(),
            old(self)@.step() is LoadDomain,
        ensures
            match (outcome, result) {
                (Ok(store), Ok(())) => final(self)@ == old(self)@.with_domain_loaded(store),
                (Err(error), Err(reported)) => {
                    &&& final(self)@ == old(self)@
                    &&& reported.kind == error.kind
                    &&& reported.message@ == io_error_message(
                        old(self)@.domains[old(self)@.loaded as int],
                        error.message@,
                    )
                },
                _ => false,
            },
            final(self).valid(),
    {
        match outcome {
            Ok(store) => {
                let ghost before = self@;
                self.map_data.insert(self.domains[self.loaded].clone(), store);
                self.loaded += 1;
                proof {
                    let name = before.domains[before.loaded as int];
                    assert(self@.domains.take(self@.loaded as int) =~= before.domains.take(
                        before.loaded as int,
                    ).push(name));
                    assert forall|other: Seq<char>| #[trigger]
                        self@.stores.contains_key(other) <==> self@.domains.take(
                            self@.loaded as int,
                        ).contains(other) by {
                        let names = before.domains.take(before.loaded as int);
                        lemma_push_contains(names, name, other);
                        assert(self@.stores.contains_key(other) <==> before.stores.contains_key(
                            other,
                        ) || other == name);
                    }
                }
                Ok(())
            },
            Err(error) => Err(
                map_data_io_error(self.domains[self.loaded].as_str(), error),
            ),
        }
    }

    /// Returns the map store that the next world is to be bound to.
    pub fn owner(&self) -> (result: Result<&S, MapDataError>)
        requires
            self.valid(),
            self@.step() is BindWorld,
        ensures
            ({
                let world = self@.worlds[self@.bound as int];
                match result {
                    Ok(store) => {
                        &&& self@.domains.contains(world.domain)
                        &&& self@.stores.contains_key(world.domain)
                        &&& *store == self@.stores[world.domain]
                    },
                    Err(MapDataError::NoMapDataOwner { world: key, domain }) => {
                        &&& !self@.domains.contains(world.domain)
                        &&& key@ == world.key
                        &&& domain@ == world.domain
                    },
                    Err(_) => false,
                }
            }),
    {
        let world = &self.worlds[self.bound];
        assert(self@.worlds[self@.bound as int] == world@);
        assert(self@.domains.take(self@.loaded as int) =~= self@.domains);
        assert(self@.stores.contains_key(world.domain@) <==> self@.domains.contains(world.domain@));
        match self.map_data.get(world.domain.as_str()) {
            Some(store) => Ok(store),
            None => Err(
                MapDataError::NoMapDataOwner {
                    world: world.key.clone(),
                    domain: world.domain.clone(),
                },
            ),
        }
    }

    /// Takes in how binding the next world to the store of its domain went. An error ends the
    /// run and is reported as it is.
    pub fn world_bound<E>(&mut self, outcome: Result<(), E>) -> (result: Result<(), E>)
        requires
            old(self).valid(),
            old(self)@.step() is BindWorld,
            old(self)@.stores.contains_key(old(self)@.worlds[old(self)@.bound as int].domain),
        ensures
            match (outcome, result) {
                (Ok(()), Ok(())) => final(self)@ == old(self)@.with_world_bound(),
                (Err(error), Err(reported)) => reported == error && final(self)@ == old(self)@,
                _ => false,
            },
            final(self).valid(),
    {
        match outcome {
            Ok(()) => {
                let ghost before = self@;
                self.bound += 1;
                assert(self@.domains == before.domains && self@.stores == before.stores);
                assert(self@.valid());
                Ok(())
            },
            Err(error) => Err(error),
        }
    }

    /// Returns the loaded map stores.
    pub fn finish(self) -> (result: DomainMapData<S>)
        requires
            self.valid(),
            self@.step() is Finished,
        ensures
            result@ == self@.stores,
            result.names() == self.names(),
            result.valid(),
            forall|name: Seq<char>| #[trigger]
                result@.contains_key(name) <==> self@.domains.contains(name),
            forall|i: int|
                0 <= i < self@.worlds.len() ==> result@.contains_key(
                    (#[trigger] self@.worlds[i]).domain,
                ),
    {
        assert(self@.domains.take(self@.loaded as int) =~= self@.domains);
        self.map_data
    }
}

/// Once all domains are loaded, there is a map store for every world whose domain is among
/// them.
pub proof fn law_worlds_of_loaded_domains_have_a_store<S>(progress: LoadModel<S>, i: int)
    requires
        progress.valid(),
        progress.loaded == progress.domains.len(),
        0 <= i < progress.worlds.len(),
        progress.domains.contains(progress.worlds[i].domain),
    ensures
        progress.stores.contains_key(progress.worlds[i].domain),
{
    assert(progress.domains.take(progress.loaded as int) =~= progress.domains);
}

/// The state after a number of worlds were bound.
pub open spec fn after_binding<S>(progress: LoadModel<S>, worlds: nat) -> LoadModel<S>
    decreases worlds,
{
    if worlds == 0 {
        progress
    } else {
        after_binding(progress, (worlds - 1) as nat).with_world_bound()
    }
}

/// Worlds of one domain are bound to one store, however many worlds are bound in between.
pub proof fn law_worlds_of_a_domain_share_its_store<S>(
    progress: LoadModel<S>,
    between: nat,
    i: int,
    j: int,
)
    requires
        0 <= i < progress.worlds.len(),
        0 <= j < progress.worlds.len(),
        progress.worlds[i].domain == progress.worlds[j].domain,
    ensures
        ({
            let later = after_binding(progress, between);
            later.stores[later.worlds[j].domain] == progress.stores[progress.worlds[i].domain]
        }),
{
    lemma_after_binding(progress, between);
}

proof fn lemma_after_binding<S>(progress: LoadModel<S>, worlds: nat)
    ensures
        after_binding(progress, worlds).stores == progress.stores,
        after_binding(progress, worlds).worlds == progress.worlds,
    decreases worlds,
{
    if worlds > 0 {
        lemma_after_binding(progress, (worlds - 1) as nat);
    }
}

/// No more domains are saved than there are.
pub proof fn law_saved_domains_are_among_the_handled(outcomes: Seq<bool>)
    ensures
        count_saved(outcomes) <= outcomes.len(),
    decreases outcomes.len(),
{
    if outcomes.len() > 0 {
        law_saved_domains_are_among_the_handled(outcomes.drop_last());
    }
}

/// How many of the outcomes say that something was saved.
pub open spec fn count_saved(outcomes: Seq<bool>) -> nat
    decreases outcomes.len(),
{
    if outcomes.len() == 0 {
        0
    } else {
        count_saved(outcomes.drop_last()) + if outcomes.last() {
            1nat
        } else {
            0nat
        }
    }
}

/// How many of the stores have changes that are not saved.
pub open spec fn count_changed(states: Seq<MapDataModel>) -> nat {
    states.filter(|state: MapDataModel| state.changed()).len()
}

/// A run over all stores, each of which answers whether it had changes, counts the stores
/// that had changes.
pub proof fn law_saving_all_counts_the_changed_stores(
    states: Seq<MapDataModel>,
    outcomes: Seq<bool>,
)
    requires
        outcomes.len() == states.len(),
        forall|i: int| 0 <= i < states.len() ==> #[trigger] outcomes[i] == states[i].changed(),
    ensures
        count_saved(outcomes) == count_changed(states),
    decreases states.len(),
{
    reveal(Seq::filter);
    if states.len() > 0 {
        law_saving_all_counts_the_changed_stores(states.drop_last(), outcomes.drop_last());
        assert(outcomes[states.len() - 1] == states.last().changed());
    }
}

/// A run over all stores in which every write went well counts the stores that had changes.
/// Those were written, at the revision that they had, and no others were. Afterwards nothing
/// is left to save, so that a further run counts none, and all maps are as they were.
pub proof fn law_saving_all_leaves_nothing_to_save(
    before: Seq<MapDataModel>,
    written: Seq<Option<u64>>,
    outcomes: Seq<bool>,
    after: Seq<MapDataModel>,
)
    requires
        written.len() == before.len(),
        outcomes.len() == before.len(),
        after.len() == before.len(),
        forall|i: int|
            #![trigger before[i]]
            0 <= i < before.len() ==> before[i].saved_as(written[i], outcomes[i], after[i]),
    ensures
        count_saved(outcomes) == count_changed(before),
        count_changed(after) == 0,
        forall|i: int|
            #![trigger after[i]]
            0 <= i < before.len() ==> {
                &&& written[i] == (if before[i].changed() {
                    Some(before[i].revision)
                } else {
                    None
                })
                &&& !after[i].changed()
                &&& after[i].maps == before[i].maps
                &&& after[i].last_map_id == before[i].last_map_id
                &&& !before[i].changed() ==> after[i] == before[i]
            },
{
    assert forall|i: int| 0 <= i < before.len() implies {
        &&& #[trigger] outcomes[i] == before[i].changed()
        &&& !after[i].changed()
    } by {
        assert(before[i].saved_as(written[i], outcomes[i], after[i]));
    }
    law_saving_all_counts_the_changed_stores(before, outcomes);
    let none = Seq::new(after.len(), |i: int| false);
    assert forall|i: int| 0 <= i < after.len() implies #[trigger] none[i] == after[i].changed() by {
        assert(outcomes[i] == before[i].changed());
    }
    law_saving_all_counts_the_changed_stores(after, none);
    lemma_nothing_saved(none);
}

proof fn lemma_nothing_saved(outcomes: Seq<bool>)
    requires
        forall|i: int| 0 <= i < outcomes.len() ==> !#[trigger] outcomes[i],
    ensures
        count_saved(outcomes) == 0,
    decreases outcomes.len(),
{
    if outcomes.len() > 0 {
        lemma_nothing_saved(outcomes.drop_last());
        assert(!outcomes[outcomes.len() - 1]);
    }
}

/// Saving the map stores of all domains, one after the other.
pub struct SaveAll<'a, S> {
    map_data: &'a DomainMapData<S>,
    next: usize,
    saved: usize,
    outcomes: Ghost<Seq<bool>>,
}

impl<S> DomainMapData<S> {
    /// Starts to save every changed map store.
    pub fn save_all(&self) -> (result: SaveAll<'_, S>)
        requires
            self.valid(),
        ensures
            result.map_data() == *self,
            result.outcomes() == Seq::<bool>::empty(),
            result.valid(),
    {
        SaveAll { map_data: self, next: 0, saved: 0, outcomes: Ghost(Seq::empty()) }
    }
}

impl<'a, S> SaveAll<'a, S> {
    /// What is being saved.
    pub closed spec fn map_data(self) -> DomainMapData<S> {
        *self.map_data
    }

    /// For each domain that was handled, whether it had something to save.
    pub closed spec fn outcomes(self) -> Seq<bool> {
        self.outcomes@
    }

    /// Whether the count is that of the outcomes.
    pub closed spec fn valid(self) -> bool {
        &&& self.map_data.valid()
        &&& self.next == self.outcomes@.len()
        &&& self.next <= self.map_data.domains.len()
        &&& self.saved == count_saved(self.outcomes@)
    }

    /// A run handles each domain once and in order, and no more than there are.
    pub proof fn law_runs_keep_to_the_domains(self)
        requires
            self.valid(),
        ensures
            self.map_data().valid(),
            self.map_data().names().no_duplicates(),
            self.outcomes().len() <= self.map_data().names().len(),
    {
        let names = self.map_data().names();
        assert forall|i: int, j: int|
            0 <= i < names.len() && 0 <= j < names.len() && i != j implies names[i] != names[j] by {
            law_name_order_is_strict(names[i]);
        }
    }

    /// Returns the next domain with its store, or `None` when all were handled.
    #[must_use]
    pub fn next_domain(&self) -> (result: Option<&'a DomainEntry<S>>)
        requires
            self.valid(),
        ensures
            ({
                let names = self.map_data().names();
                let i = self.outcomes().len() as int;
                match result {
                    Some(entry) => {
                        &&& i < names.len()
                        &&& entry.domain@ == names[i]
                        &&& self.map_data()@.contains_key(names[i])
                        &&& entry.store == self.map_data()@[names[i]]
                    },
                    None => i == names.len(),
                }
            }),
    {
        if self.next < self.map_data.domains.len() {
            proof {
                lemma_one_place(self.map_data.domains@, self.next as int);
            }
            Some(&self.map_data.domains[self.next])
        } else {
            None
        }
    }

    /// Takes in how saving the next domain went. An error ends the run, and says which
    /// domain it concerns.
    pub fn domain_saved<K>(&mut self, outcome: Result<bool, IoError<K>>) -> (result: Result<
        (),
        IoError<K>,
    >)
        requires
            old(self).valid(),
            old(self).outcomes().len() < old(self).map_data().names().len(),
        ensures
            final(self).map_data() == old(self).map_data(),
            final(self).valid(),
            match (outcome, result) {
                (Ok(saved), Ok(())) => final(self).outcomes() == old(self).outcomes().push(saved),
                (Err(error), Err(reported)) => {
                    &&& final(self).outcomes() == old(self).outcomes()
                    &&& reported.kind == error.kind
                    &&& reported.message@ == io_error_message(
                        old(self).map_data().names()[old(self).outcomes().len() as int],
                        error.message@,
                    )
                },
                _ => false,
            },
    {
        proof {
            law_saved_domains_are_among_the_handled(self.outcomes@);
        }
        match outcome {
            Ok(saved) => {
                if saved {
                    self.saved += 1;
                }
                self.next += 1;
                self.outcomes = Ghost(self.outcomes@.push(saved));
                assert(self.outcomes@.drop_last() =~= old(self).outcomes@);
                Ok(())
            },
            Err(error) => Err(
                map_data_io_error(self.map_data.domains[self.next].domain.as_str(), error),
            ),
        }
    }

    /// Returns how many domains were saved.
    #[must_use]
    pub fn saved(&self) -> (result: usize)
        requires
            self.valid(),
        ensures
            result == count_saved(self.outcomes()),
    {
        self.saved
    }
}

/// The next step names the first domain that is not loaded yet, while there is one: all
/// domains before it, and no others, have a store. Once all are loaded, it names the first
/// world that is not bound yet, while there is one.
pub proof fn law_steps_name_the_next_place<S>(progress: LoadModel<S>)
    requires
        progress.valid(),
    ensures
        match progress.step() {
            LoadStep::LoadDomain(i) => {
                &&& i < progress.domains.len()
                &&& i == progress.loaded
                &&& progress.bound == 0
                &&& forall|name: Seq<char>| #[trigger]
                    progress.stores.contains_key(name) <==> exists|j: int|
                        0 <= j < i && #[trigger] progress.domains[j] == name
            },
            LoadStep::BindWorld(i) => {
                &&& progress.loaded == progress.domains.len()
                &&& i < progress.worlds.len()
                &&& i == progress.bound
                &&& forall|j: int|
                    0 <= j < i ==> progress.stores.contains_key(
                        (#[trigger] progress.worlds[j]).domain,
                    )
            },
            LoadStep::Finished => {
                &&& progress.loaded == progress.domains.len()
                &&& progress.bound == progress.worlds.len()
            },
        },
{
    if progress.step() is LoadDomain {
        let names = progress.domains.take(progress.loaded as int);
        assert forall|name: Seq<char>| #[trigger]
            progress.stores.contains_key(name) <==> exists|j: int|
                0 <= j < progress.loaded && #[trigger] progress.domains[j] == name by {
            if progress.stores.contains_key(name) {
                assert(names.contains(name));
                let j = choose|j: int| 0 <= j < names.len() && names[j] == name;
                assert(progress.domains[j] == name);
            }
            if exists|j: int| 0 <= j < progress.loaded && #[trigger] progress.domains[j] == name {
                let j = choose|j: int|
                    0 <= j < progress.loaded && #[trigger] progress.domains[j] == name;
                assert(names[j] == name);
            }
        }
    }
}

/// The store that is taken in next is kept under the name of the domain that the next step
/// names. The stores of all other domains, and the domains and worlds of the run, stay as
/// they are, and the step after it names the place after it, or goes on to the worlds.
pub proof fn law_stores_are_kept_under_the_named_domain<S>(
    progress: LoadModel<S>,
    store: S,
    name: Seq<char>,
)
    requires
        progress.valid(),
        progress.step() is LoadDomain,
    ensures
        ({
            let i = progress.step()->LoadDomain_0;
            let after = progress.with_domain_loaded(store);
            &&& after.domains == progress.domains
            &&& after.worlds == progress.worlds
            &&& after.loaded == i + 1
            &&& after.bound == progress.bound
            &&& name == progress.domains[i as int] ==> after.stores.contains_key(name)
                && after.stores[name] == store
            &&& name != progress.domains[i as int] ==> (after.stores.contains_key(name)
                <==> progress.stores.contains_key(name))
            &&& name != progress.domains[i as int] && progress.stores.contains_key(name)
                ==> after.stores[name] == progress.stores[name]
            &&& i + 1 < progress.domains.len() ==> after.step() == LoadStep::LoadDomain(
                (i + 1) as usize,
            )
            &&& i + 1 == progress.domains.len() && progress.worlds.len() > 0 ==> after.step()
                == LoadStep::BindWorld(0)
            &&& i + 1 == progress.domains.len() && progress.worlds.len() == 0 ==> after.step()
                == LoadStep::Finished
        }),
{
}

/// Binding the world that the next step names changes nothing but that this world is bound:
/// the step after it names the world after it, or says that everything is done.
pub proof fn law_worlds_are_bound_in_order<S>(progress: LoadModel<S>)
    requires
        progress.valid(),
        progress.step() is BindWorld,
    ensures
        ({
            let i = progress.step()->BindWorld_0;
            let after = progress.with_world_bound();
            &&& after.domains == progress.domains
            &&& after.worlds == progress.worlds
            &&& after.loaded == progress.loaded
            &&& after.bound == i + 1
            &&& after.stores == progress.stores
            &&& i + 1 < progress.worlds.len() ==> after.step() == LoadStep::BindWorld(
                (i + 1) as usize,
            )
            &&& i + 1 == progress.worlds.len() ==> after.step() == LoadStep::Finished
        }),
{
}

/// The count of saved domains is that of the outcomes that say so: one more for each of
/// them, and none for the others.
pub proof fn law_count_saved(outcomes: Seq<bool>, outcome: bool)
    ensures
        count_saved(outcomes) == outcomes.filter(|saved: bool| saved).len(),
        count_saved(Seq::<bool>::empty()) == 0,
        outcome ==> count_saved(outcomes.push(outcome)) == count_saved(outcomes) + 1,
        !outcome ==> count_saved(outcomes.push(outcome)) == count_saved(outcomes),
    decreases outcomes.len(),
{
    reveal(Seq::filter);
    assert(outcomes.push(outcome).drop_last() =~= outcomes);
    if outcomes.len() > 0 {
        law_count_saved(outcomes.drop_last(), outcome);
    }
}

/// The count of changed stores is that of the stores whose revision is not the saved one.
pub proof fn law_count_changed(states: Seq<MapDataModel>)
    ensures
        count_changed(states) == states.filter(
            |state: MapDataModel| state.revision != state.saved_revision,
        ).len(),
    decreases states.len(),
{
    reveal(Seq::filter);
    if states.len() > 0 {
        law_count_changed(states.drop_last());
    }
}

/// Names in order stand each once, and each before those that follow it.
pub proof fn law_names_in_order(names: Seq<Seq<char>>, i: int, j: int)
    requires
        in_order(names),
        0 <= i < j < names.len(),
    ensures
        name_before(names[i], names[j]),
        names[i] != names[j],
{
    law_name_order_is_strict(names[i]);
}

} // verus!
