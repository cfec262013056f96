//! How errors are reported, stated over the errors and the reports.

use vstd::prelude::*;

use crate::error::{
    domain_default_world, map_data_io_error, ErrorKind, IoError, MapDataError,
};
use crate::text::decimal;

verus! {

/// What was looked for and is missing is reported as not found, the end of the map numbers as
/// an error of no particular kind, and everything else as invalid data.
pub proof fn law_kind(error: MapDataError, result: ErrorKind)
    requires
        call_ensures(MapDataError::kind, (&error,), result),
    ensures
        result is NotFound <==> error is NoDefaultWorld || error is NoMapDataOwner,
        result is Other <==> error is MapIdsExhausted,
        result is InvalidData <==> error is InvalidLastMapId || error is NegativeMapId
            || error is ColorBufferLength || error is DuplicateMapId
            || error is LastMapIdPrecedesMap || error is MapIdAllocated,
{
}

/// An error is reported with the text of its variant, in which the numbers that it carries
/// stand in decimal notation and the names as they are.
pub proof fn law_message(error: MapDataError, result: String)
    requires
        call_ensures(MapDataError::message, (&error,), result),
    ensures
        match error {
            MapDataError::InvalidLastMapId { last_map_id } => result@ == "invalid last map ID "@
                + decimal(last_map_id as int),
            MapDataError::NegativeMapId { id } => result@ == "invalid negative map ID "@ + decimal(
                id as int,
            ),
            MapDataError::ColorBufferLength { id, length } => result@ == "map "@ + decimal(
                id as int,
            ) + " color buffer has length "@ + decimal(length as int) + ", expected "@ + seq![
                '1',
                '6',
                '3',
                '8',
                '4',
            ],
            MapDataError::DuplicateMapId { id } => result@ == "duplicate map ID "@ + decimal(
                id as int,
            ),
            MapDataError::LastMapIdPrecedesMap => result@
                == "last map ID precedes an allocated map"@,
            MapDataError::MapIdsExhausted => result@ == "map ID space is exhausted"@,
            MapDataError::MapIdAllocated { id } => result@ == "map ID "@ + decimal(id as int)
                + " is already allocated"@,
            MapDataError::NoDefaultWorld { domain } => result@ == "domain '"@ + domain@
                + "' has no loaded default world"@,
            MapDataError::NoMapDataOwner { world, domain } => result@ == "loaded world "@ + world@
                + " has no map-data owner for domain "@ + domain@,
        },
{
    reveal_with_fuel(crate::text::digits, 6);
    assert(decimal(16384) =~= seq!['1', '6', '3', '8', '4']);
}

/// An input/output error keeps its kind. Its text then names the domain and ends with the
/// text that it had.
pub proof fn law_map_data_io_error<K>(domain: &str, error: IoError<K>, result: IoError<K>)
    requires
        call_ensures(map_data_io_error::<K>, (domain, error), result),
    ensures
        result.kind == error.kind,
        result.message@ == "map-data I/O failed for domain '"@ + domain@ + "': "@ + error.message@,
{
}

/// A default world that was found is returned. Where none was found, the report is of the kind
/// not found, and its text names the domain.
pub proof fn law_domain_default_world<W>(
    default_world: Option<W>,
    domain: &str,
    result: Result<W, MapDataError>,
    kind: ErrorKind,
    message: String,
)
    requires
        call_ensures(domain_default_world::<W>, (default_world, domain), result),
        result is Err ==> {
            &&& call_ensures(MapDataError::kind, (&result->Err_0,), kind)
            &&& call_ensures(MapDataError::message, (&result->Err_0,), message)
        },
    ensures
        default_world is Some ==> result is Ok && result->Ok_0 == default_world->0,
        default_world is None ==> {
            &&& result is Err
            &&& kind is NotFound
            &&& message@ == "domain '"@ + domain@ + "' has no loaded default world"@
        },
{
}

} // verus!
