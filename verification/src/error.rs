//! What can go wrong with map data.

use vstd::prelude::*;

use crate::grid::MAP_COLOR_COUNT;
use crate::ids::Identifier;
use crate::text::{append_integer, append_number, decimal};

verus! {

/// Reasons for which map data is refused or a map cannot be allocated.
#[derive(Debug, PartialEq, Eq)]
pub enum MapDataError {
    /// The saved last map number is below -1.
    InvalidLastMapId { last_map_id: i32 },
    /// A saved map has a negative number.
    NegativeMapId { id: i32 },
    /// A saved map does not have one colour per pixel.
    ColorBufferLength { id: i32, length: usize },
    /// Two saved maps have the same number.
    DuplicateMapId { id: i32 },
    /// A saved map has a number above the saved last map number.
    LastMapIdPrecedesMap,
    /// No further map number exists.
    MapIdsExhausted,
    /// The next map number is already taken.
    MapIdAllocated { id: i32 },
    /// A domain has no loaded default world.
    NoDefaultWorld { domain: String },
    /// A loaded world belongs to a domain without map data.
    NoMapDataOwner { world: Identifier, domain: String },
}

/// The kind of input/output error that a [`MapDataError`] is reported as.
#[derive(Debug, Clone, Copy, PartialEq, Eq, Structural)]
pub enum ErrorKind {
    NotFound,
    InvalidData,
    Other,
}

impl MapDataError {
    /// The kind that the error is reported as.
    pub open spec fn spec_kind(self) -> ErrorKind {
        match self {
            MapDataError::NoDefaultWorld { .. } => ErrorKind::NotFound,
            MapDataError::NoMapDataOwner { .. } => ErrorKind::NotFound,
            MapDataError::MapIdsExhausted => ErrorKind::Other,
            _ => ErrorKind::InvalidData,
        }
    }

    /// The text that the error is reported with.
    pub open spec fn spec_message(self) -> Seq<char> {
        match self {
            MapDataError::InvalidLastMapId { last_map_id } => "invalid last map ID "@ + decimal(
                last_map_id as int,
            ),
            MapDataError::NegativeMapId { id } => "invalid negative map ID "@ + decimal(id as int),
            MapDataError::ColorBufferLength { id, length } => "map "@ + decimal(id as int)
                + " color buffer has length "@ + decimal(length as int) + ", expected "@ + decimal(
                MAP_COLOR_COUNT as int,
            ),
            MapDataError::DuplicateMapId { id } => "duplicate map ID "@ + decimal(id as int),
            MapDataError::LastMapIdPrecedesMap => "last map ID precedes an allocated map"@,
            MapDataError::MapIdsExhausted => "map ID space is exhausted"@,
            MapDataError::MapIdAllocated { id } => "map ID "@ + decimal(id as int)
                + " is already allocated"@,
            MapDataError::NoDefaultWorld { domain } => "domain '"@ + domain@
                + "' has no loaded default world"@,
            MapDataError::NoMapDataOwner { world, domain } => "loaded world "@ + world@
                + " has no map-data owner for domain "@ + domain@,
        }
    }

    /// Returns the kind that the error is reported as.
    #[must_use]
    pub fn kind(&self) -> (result: ErrorKind)
        ensures
            result == self.spec_kind(),
    {
        match self {
            MapDataError::NoDefaultWorld { .. } => ErrorKind::NotFound,
            MapDataError::NoMapDataOwner { .. } => ErrorKind::NotFound,
            MapDataError::MapIdsExhausted => ErrorKind::Other,
            _ => ErrorKind::InvalidData,
        }
    }

    /// Returns the text that the error is reported with.
    #[must_use]
    pub fn message(&self) -> (result: String)
        ensures
            result@ == self.spec_message(),
    {
        let mut text = String::new();
        match self {
            MapDataError::InvalidLastMapId { last_map_id } => {
                text.append("invalid last map ID ");
                append_integer(&mut text, *last_map_id);
            },
            MapDataError::NegativeMapId { id } => {
                text.append("invalid negative map ID ");
                append_integer(&mut text, *id);
            },
            MapDataError::ColorBufferLength { id, length } => {
                text.append("map ");
                append_integer(&mut text, *id);
                text.append(" color buffer has length ");
                append_number(&mut text, *length as u64);
                text.append(", expected ");
                append_number(&mut text, MAP_COLOR_COUNT as u64);
            },
            MapDataError::DuplicateMapId { id } => {
                text.append("duplicate map ID ");
                append_integer(&mut text, *id);
            },
            MapDataError::LastMapIdPrecedesMap => {
                text.append("last map ID precedes an allocated map");
            },
            MapDataError::MapIdsExhausted => {
                text.append("map ID space is exhausted");
            },
            MapDataError::MapIdAllocated { id } => {
                text.append("map ID ");
                append_integer(&mut text, *id);
                text.append(" is already allocated");
            },
            MapDataError::NoDefaultWorld { domain } => {
                text.append("domain '");
                text.append(domain.as_str());
                text.append("' has no loaded default world");
            },
            MapDataError::NoMapDataOwner { world, domain } => {
                text.append("loaded world ");
                text.append(world.as_str());
                text.append(" has no map-data owner for domain ");
                text.append(domain.as_str());
            },
        }
        assert(text@ =~= self.spec_message());
        text
    }
}

/// An input/output error of kind `K` with its text.
#[derive(Debug)]
pub struct IoError<K> {
    pub kind: K,
    pub message: String,
}

/// The text of an input/output error of a domain's map data.
pub open spec fn io_error_message(domain: Seq<char>, message: Seq<char>) -> Seq<char> {
    "map-data I/O failed for domain '"@ + domain + "': "@ + message
}

/// Says of an input/output error which domain's map data it concerns.
pub fn map_data_io_error<K>(domain: &str, error: IoError<K>) -> (result: IoError<K>)
    ensures
        result.kind == error.kind,
        result.message@ == io_error_message(domain@, error.message@),
{
    let mut message = String::new();
    message.append("map-data I/O failed for domain '");
    message.append(domain);
    message.append("': ");
    message.append(error.message.as_str());
    assert(message@ =~= io_error_message(domain@, error.message@));
    IoError { kind: error.kind, message }
}

/// The default world of a domain, given what was found.
pub fn domain_default_world<W>(default_world: Option<W>, domain: &str) -> (result: Result<
    W,
    MapDataError,
>)
    ensures
        match (default_world, result) {
            (Some(world), Ok(found)) => found == world,
            (None, Err(MapDataError::NoDefaultWorld { domain: named })) => named@ == domain@,
            _ => false,
        },
{
    match default_world {
        Some(world) => Ok(world),
        None => Err(MapDataError::NoDefaultWorld { domain: domain.to_owned() }),
    }
}

} // verus!
