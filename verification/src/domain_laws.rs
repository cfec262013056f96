//! What the operations on the stores of all domains do, stated over their arguments and
//! results.
//!
//! Each law takes what one or more calls were given and what they returned, and says how
//! these relate.

use vstd::prelude::*;

use crate::domains::{
    law_count_saved, law_names_in_order, law_steps_name_the_next_place, DomainEntry, DomainMapData,
    LoadAndBind, LoadStep, SaveAll,
};
use crate::error::{IoError, MapDataError};
use crate::ids::World;
use crate::names::name_before;

verus! {

/// Map data starts without domains, so that no name has a store.
pub proof fn law_new<S>(map_data: DomainMapData<S>, domain: &str, found: Option<&S>)
    requires
        call_ensures(DomainMapData::<S>::new, (), map_data),
        call_ensures(DomainMapData::<S>::get, (&map_data, domain), found),
    ensures
        found is None,
{
}

/// A store that was inserted is found under the name of its domain, and every other name has
/// the store that it had, or none.
pub proof fn law_insert_get<S>(
    map_data: &mut DomainMapData<S>,
    domain: String,
    store: S,
    before: DomainMapData<S>,
    after: DomainMapData<S>,
    other: &str,
    found_before: Option<&S>,
    found_after: Option<&S>,
)
    requires
        before == *map_data,
        after == *final(map_data),
        call_ensures(DomainMapData::<S>::insert, (map_data, domain, store), ()),
        call_ensures(DomainMapData::<S>::get, (&before, other), found_before),
        call_ensures(DomainMapData::<S>::get, (&after, other), found_after),
    ensures
        other@ == domain@ ==> found_after is Some && *found_after->0 == store,
        other@ != domain@ ==> (found_after is Some <==> found_before is Some),
        other@ != domain@ && found_before is Some ==> *found_after->0 == *found_before->0,
{
}

/// A run starts with the first domain, or where there is none with the first world, or where
/// there is none either with nothing to do. It keeps the names of the domains, and the keys
/// and domains of the worlds, as they were given, and no domain has a store yet.
pub proof fn law_load_and_bind_starts_at_the_front<S>(
    domains: Vec<String>,
    worlds: Vec<World>,
    run: LoadAndBind<S>,
    step: LoadStep,
)
    requires
        call_ensures(DomainMapData::<S>::load_and_bind, (domains, worlds), run),
        call_ensures(LoadAndBind::<S>::step, (&run,), step),
    ensures
        domains.len() > 0 ==> step == LoadStep::LoadDomain(0),
        domains.len() == 0 && worlds.len() > 0 ==> step == LoadStep::BindWorld(0),
        domains.len() == 0 && worlds.len() == 0 ==> step == LoadStep::Finished,
        run@.domains.len() == domains.len(),
        forall|i: int| 0 <= i < domains.len() ==> #[trigger] run@.domains[i] == domains@[i]@,
        run@.worlds.len() == worlds.len(),
        forall|i: int|
            #![trigger run@.worlds[i]]
            0 <= i < worlds.len() ==> run@.worlds[i].key == worlds@[i].key@ && run@.worlds[i].domain
                == worlds@[i].domain@,
        forall|name: Seq<char>| !run@.stores.contains_key(name),
        run.valid(),
{
}

/// Domains are loaded one after the other from the front, then worlds are bound one after the
/// other from the front. The place in a step to load is that of the first domain that is not
/// loaded, so that just the domains before it have a store.
pub proof fn law_step<S>(run: LoadAndBind<S>, step: LoadStep, name: Seq<char>)
    requires
        run.valid(),
        call_ensures(LoadAndBind::<S>::step, (&run,), step),
    ensures
        match step {
            LoadStep::LoadDomain(i) => {
                &&& i < run@.domains.len()
                &&& i == run@.loaded
                &&& run@.stores.contains_key(name) <==> exists|j: int|
                    0 <= j < i && #[trigger] run@.domains[j] == name
            },
            LoadStep::BindWorld(i) => {
                &&& run@.loaded == run@.domains.len()
                &&& i < run@.worlds.len()
                &&& i == run@.bound
            },
            LoadStep::Finished => {
                &&& run@.loaded == run@.domains.len()
                &&& run@.bound == run@.worlds.len()
            },
        },
{
    law_steps_name_the_next_place(run@);
}

/// A loaded store is kept under the name of the domain that the step named, and the next step
/// goes on to the domain after it, or to the first world. Every other name has the store that
/// it had, or none, and no domain or world comes or goes.
pub proof fn law_domain_loaded<S, K>(
    run: &mut LoadAndBind<S>,
    before: LoadAndBind<S>,
    after: LoadAndBind<S>,
    step: LoadStep,
    store: S,
    result: Result<(), IoError<K>>,
    next: LoadStep,
)
    requires
        before == *run,
        after == *final(run),
        before.valid(),
        call_ensures(LoadAndBind::<S>::step, (&before,), step),
        step is LoadDomain,
        call_ensures(LoadAndBind::<S>::domain_loaded::<K>, (run, Ok(store)), result),
        call_ensures(LoadAndBind::<S>::step, (&after,), next),
    ensures
        result is Ok,
        after.valid(),
        after@.domains == before@.domains,
        after@.worlds == before@.worlds,
        after@.bound == before@.bound,
        ({
            let i = step->LoadDomain_0;
            let named = before@.domains[i as int];
            &&& after@.loaded == i + 1
            &&& after@.stores.contains_key(named)
            &&& after@.stores[named] == store
            &&& forall|name: Seq<char>|
                #![trigger after@.stores.contains_key(name)]
                #![trigger before@.stores.contains_key(name)]
                name != named ==> (after@.stores.contains_key(name)
                    <==> before@.stores.contains_key(name))
            &&& forall|name: Seq<char>|
                #![trigger after@.stores[name]]
                #![trigger before@.stores[name]]
                name != named && before@.stores.contains_key(name) ==> after@.stores[name]
                    == before@.stores[name]
            &&& i + 1 < before@.domains.len() ==> next == LoadStep::LoadDomain((i + 1) as usize)
            &&& i + 1 == before@.domains.len() && before@.worlds.len() > 0 ==> next
                == LoadStep::BindWorld(0)
            &&& i + 1 == before@.domains.len() && before@.worlds.len() == 0 ==> next
                == LoadStep::Finished
        }),
{
}

/// Where loading a domain fails, the run does not go on: the error keeps its kind, and its
/// text names the domain that the step named and ends with the text of the error.
pub proof fn law_domain_not_loaded<S, K>(
    run: &mut LoadAndBind<S>,
    before: LoadAndBind<S>,
    step: LoadStep,
    error: IoError<K>,
    result: Result<(), IoError<K>>,
)
    requires
        before == *run,
        before.valid(),
        call_ensures(LoadAndBind::<S>::step, (&before,), step),
        step is LoadDomain,
        call_ensures(LoadAndBind::<S>::domain_loaded::<K>, (run, Err(error)), result),
    ensures
        final(run)@ == old(run)@,
        result is Err,
        result->Err_0.kind == error.kind,
        result->Err_0.message@ == "map-data I/O failed for domain '"@
            + before@.domains[step->LoadDomain_0 as int] + "': "@ + error.message@,
{
}

/// The default world of the domain that the step named is the one that was found. Where none
/// was found, the error names that domain.
pub proof fn law_default_world<S, W>(
    run: LoadAndBind<S>,
    step: LoadStep,
    found: Option<W>,
    result: Result<W, MapDataError>,
)
    requires
        run.valid(),
        call_ensures(LoadAndBind::<S>::step, (&run,), step),
        step is LoadDomain,
        call_ensures(LoadAndBind::<S>::default_world::<W>, (&run, found), result),
    ensures
        found is Some <==> result is Ok,
        found is Some ==> result->Ok_0 == found->0,
        match result {
            Err(MapDataError::NoDefaultWorld { domain }) => domain@
                == run@.domains[step->LoadDomain_0 as int],
            Err(_) => false,
            Ok(_) => true,
        },
{
}

/// The world that the step named is bound to the store of its domain. Where that domain is
/// not among those of the run, the error names the world and the domain.
pub proof fn law_owner<S>(run: LoadAndBind<S>, step: LoadStep, result: Result<&S, MapDataError>)
    requires
        run.valid(),
        call_ensures(LoadAndBind::<S>::step, (&run,), step),
        step is BindWorld,
        call_ensures(LoadAndBind::<S>::owner, (&run,), result),
    ensures
        ({
            let world = run@.worlds[step->BindWorld_0 as int];
            &&& result is Ok <==> run@.domains.contains(world.domain)
            &&& match result {
                Ok(store) => *store == run@.stores[world.domain],
                Err(MapDataError::NoMapDataOwner { world: key, domain }) => {
                    key@ == world.key && domain@ == world.domain
                },
                Err(_) => false,
            }
        }),
{
}

/// Once a world is bound the run goes on to the world after it, and is finished after the
/// last one. Nothing else changes. Where binding fails, the error is reported as it is and
/// the run does not go on.
pub proof fn law_world_bound<S, E>(
    run: &mut LoadAndBind<S>,
    before: LoadAndBind<S>,
    after: LoadAndBind<S>,
    step: LoadStep,
    outcome: Result<(), E>,
    result: Result<(), E>,
    next: LoadStep,
)
    requires
        before == *run,
        after == *final(run),
        before.valid(),
        call_ensures(LoadAndBind::<S>::step, (&before,), step),
        step is BindWorld,
        call_ensures(LoadAndBind::<S>::world_bound::<E>, (run, outcome), result),
        call_ensures(LoadAndBind::<S>::step, (&after,), next),
    ensures
        outcome is Ok <==> result is Ok,
        outcome is Err ==> result->Err_0 == outcome->Err_0 && next == step,
        after@.domains == before@.domains,
        after@.worlds == before@.worlds,
        after@.loaded == before@.loaded,
        after@.stores == before@.stores,
        ({
            let i = step->BindWorld_0;
            &&& outcome is Ok && i + 1 < before@.worlds.len() ==> next == LoadStep::BindWorld(
                (i + 1) as usize,
            )
            &&& outcome is Ok && i + 1 == before@.worlds.len() ==> next == LoadStep::Finished
        }),
{
}

/// When a run is finished, each name has the store that was kept under it, the names that
/// have one are those of the domains of the run, and every world's domain has one.
pub proof fn law_finish_get<S>(
    run: LoadAndBind<S>,
    step: LoadStep,
    map_data: DomainMapData<S>,
    domain: &str,
    found: Option<&S>,
)
    requires
        run.valid(),
        call_ensures(LoadAndBind::<S>::step, (&run,), step),
        step is Finished,
        call_ensures(LoadAndBind::<S>::finish, (run,), map_data),
        call_ensures(DomainMapData::<S>::get, (&map_data, domain), found),
    ensures
        found is Some <==> run@.domains.contains(domain@),
        found is Some ==> *found->0 == run@.stores[domain@],
        forall|i: int|
            0 <= i < run@.worlds.len() && (#[trigger] run@.worlds[i]).domain == domain@
                ==> found is Some,
{
}

/// A run that saves starts at the first domain in the order of names, and has saved none.
/// Where there are no domains, there is nothing to do.
pub proof fn law_save_all_starts_at_the_front<'a, S>(
    map_data: &'a DomainMapData<S>,
    run: SaveAll<'a, S>,
    next: Option<&'a DomainEntry<S>>,
    saved: usize,
)
    requires
        map_data.valid(),
        call_ensures(DomainMapData::<S>::save_all, (map_data,), run),
        call_ensures(SaveAll::<'a, S>::next_domain, (&run,), next),
        call_ensures(SaveAll::<'a, S>::saved, (&run,), saved),
    ensures
        saved == 0,
        next is None <==> map_data.names().len() == 0,
        next is Some ==> next->0.domain@ == map_data.names()[0],
        next is Some ==> forall|i: int|
            0 < i < map_data.names().len() ==> name_before(
                next->0.domain@,
                #[trigger] map_data.names()[i],
            ),
        run.valid(),
{
    if next is Some {
        assert forall|i: int| 0 < i < map_data.names().len() implies name_before(
            next->0.domain@,
            #[trigger] map_data.names()[i],
        ) by {
            law_names_in_order(map_data.names(), 0, i);
        }
    }
}

/// The domain that comes next is handed out with the store that its name has.
pub proof fn law_next_domain_get<'a, S>(
    map_data: DomainMapData<S>,
    run: SaveAll<'a, S>,
    entry: &'a DomainEntry<S>,
    domain: &str,
    found: Option<&S>,
)
    requires
        run.map_data() == map_data,
        call_ensures(SaveAll::<'a, S>::next_domain, (&run,), Some(entry)),
        domain@ == entry.domain@,
        call_ensures(DomainMapData::<S>::get, (&map_data, domain), found),
    ensures
        found is Some,
        *found->0 == entry.store,
{
}

/// A domain that was handled adds one to the count where it had something to save, and
/// nothing where it had not. The next domain handed out is the one after it in the order of
/// names, and none where it was the last.
pub proof fn law_domain_saved<'a, S, K>(
    run: &mut SaveAll<'a, S>,
    before: SaveAll<'a, S>,
    after: SaveAll<'a, S>,
    entry: &'a DomainEntry<S>,
    outcome: bool,
    result: Result<(), IoError<K>>,
    next: Option<&'a DomainEntry<S>>,
    saved_before: usize,
    saved_after: usize,
)
    requires
        before == *run,
        after == *final(run),
        before.valid(),
        call_ensures(SaveAll::<'a, S>::next_domain, (&before,), Some(entry)),
        call_ensures(SaveAll::<'a, S>::domain_saved::<K>, (run, Ok(outcome)), result),
        call_ensures(SaveAll::<'a, S>::next_domain, (&after,), next),
        call_ensures(SaveAll::<'a, S>::saved, (&before,), saved_before),
        call_ensures(SaveAll::<'a, S>::saved, (&after,), saved_after),
    ensures
        result is Ok,
        after.valid(),
        after.map_data() == before.map_data(),
        saved_after == saved_before + if outcome { 1int } else { 0int },
        ({
            let names = before.map_data().names();
            let i = before.outcomes().len() as int;
            &&& entry.domain@ == names[i]
            &&& next is None <==> i + 1 == names.len()
            &&& next is Some ==> next->0.domain@ == names[i + 1] && name_before(
                entry.domain@,
                next->0.domain@,
            )
        }),
{
    law_count_saved(before.outcomes(), outcome);
    before.law_runs_keep_to_the_domains();
    if next is Some {
        let i = before.outcomes().len() as int;
        law_names_in_order(before.map_data().names(), i, i + 1);
    }
}

/// Where saving a domain fails, the run does not go on and the count stays. The error keeps
/// its kind, and its text names the domain and ends with the text of the error.
pub proof fn law_domain_not_saved<'a, S, K>(
    run: &mut SaveAll<'a, S>,
    before: SaveAll<'a, S>,
    after: SaveAll<'a, S>,
    entry: &'a DomainEntry<S>,
    error: IoError<K>,
    result: Result<(), IoError<K>>,
    saved_before: usize,
    saved_after: usize,
)
    requires
        before == *run,
        after == *final(run),
        before.valid(),
        call_ensures(SaveAll::<'a, S>::next_domain, (&before,), Some(entry)),
        call_ensures(SaveAll::<'a, S>::domain_saved::<K>, (run, Err(error)), result),
        call_ensures(SaveAll::<'a, S>::saved, (&before,), saved_before),
        call_ensures(SaveAll::<'a, S>::saved, (&after,), saved_after),
    ensures
        saved_after == saved_before,
        after.outcomes() == before.outcomes(),
        result is Err,
        result->Err_0.kind == error.kind,
        result->Err_0.message@ == "map-data I/O failed for domain '"@ + entry.domain@ + "': "@
            + error.message@,
{
}

} // verus!
