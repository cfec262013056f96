//! Identities: numbered maps, named dimensions and loaded worlds.

use vstd::prelude::*;

verus! {

/// The number that a filled map item carries.
#[derive(Debug, Clone, Copy, PartialEq, Eq, PartialOrd, Ord, Hash)]
pub struct MapId {
    id: i32,
}

impl View for MapId {
    type V = i32;

    closed spec fn view(&self) -> i32 {
        self.id
    }
}

impl MapId {
    /// Wraps a map number.
    pub fn new(id: i32) -> (result: Self)
        ensures
            result@ == id,
    {
        MapId { id }
    }

    /// Returns the map number.
    pub fn id(self) -> (result: i32)
        ensures
            result == self@,
    {
        self.id
    }
}

/// A resource identifier in its text form, such as `minecraft:overworld`.
#[derive(Debug, PartialEq, Eq, Hash)]
pub struct Identifier {
    text: String,
}

impl View for Identifier {
    type V = Seq<char>;

    closed spec fn view(&self) -> Seq<char> {
        self.text@
    }
}

impl Identifier {
    /// Takes an identifier in its text form.
    pub fn new(text: String) -> (result: Self)
        ensures
            result@ == text@,
    {
        Identifier { text }
    }

    /// Returns the text form.
    pub fn as_str(&self) -> (result: &str)
        ensures
            result@ == self@,
    {
        self.text.as_str()
    }
}

impl Clone for Identifier {
    fn clone(&self) -> (result: Self)
        ensures
            result@ == self@,
    {
        Identifier { text: self.text.clone() }
    }
}

/// What the map data needs to know of a loaded world.
#[derive(Debug)]
pub struct World {
    /// The key of the loaded world.
    pub key: Identifier,
    /// The domain that the world belongs to.
    pub domain: String,
}

/// What a loaded world is known by.
#[verifier::ext_equal]
pub struct WorldModel {
    pub key: Seq<char>,
    pub domain: Seq<char>,
}

impl View for World {
    type V = WorldModel;

    open spec fn view(&self) -> WorldModel {
        WorldModel { key: self.key@, domain: self.domain@ }
    }
}

/// The number that a map number was made from is the one that it gives back.
pub proof fn law_map_ids_keep_their_number(id: i32, map_id: MapId, result: i32)
    requires
        call_ensures(MapId::new, (id,), map_id),
        call_ensures(MapId::id, (map_id,), result),
    ensures
        result == id,
        map_id@ == id,
{
}

/// The text that an identifier was made from is the one that it and its copies give back.
pub proof fn law_identifiers_keep_their_text(
    text: String,
    identifier: Identifier,
    copy: Identifier,
    result: &str,
    copied: &str,
)
    requires
        call_ensures(Identifier::new, (text,), identifier),
        call_ensures(Identifier::clone, (&identifier,), copy),
        call_ensures(Identifier::as_str, (&identifier,), result),
        call_ensures(Identifier::as_str, (&copy,), copied),
    ensures
        result@ == text@,
        copied@ == text@,
        identifier@ == text@,
{
}

/// A world is known by its key and its domain.
pub proof fn law_worlds_are_their_fields(world: World)
    ensures
        world@.key == world.key@,
        world@.domain == world.domain@,
{
}

} // verus!
