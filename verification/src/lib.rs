//! Filled-map data of a game server, kept per domain.
//!
//! A filled map is a numbered picture of a square of a world: 128x128 packed colours, a
//! scale and a lock. Each domain has one store that numbers its maps and knows whether
//! they have changed since they were last saved. Tracking of players and markers, and
//! the transfer to clients, are no part of this.
//!
//! * [`grid`]: the squares that maps of each scale cover
//! * [`item`]: one map
//! * [`store`]: the maps of one domain, and their saved form
//! * [`domains`]: the stores of all domains, and the order of work on them
//! * [`error`]: what can go wrong, and how it is reported
//! * [`ids`], [`names`], [`text`]: identities, the order of names, numbers in messages
//! * [`item_laws`], [`store_laws`], [`domain_laws`], [`error_laws`]: how the results of calls
//!   relate to their arguments and to those of other calls

pub mod domain_laws;
pub mod domains;
pub mod error;
pub mod error_laws;
pub mod grid;
pub mod ids;
pub mod item;
pub mod item_laws;
pub mod names;
pub mod store;
pub mod store_laws;
pub mod text;

pub use domains::DomainMapData;
pub use error::MapDataError;
pub use grid::MAX_SCALE;
pub use ids::{Identifier, MapId, World};
pub use item::{MapItemSavedData, NewMapData};
pub use store::MapDataStore;
