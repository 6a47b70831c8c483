//! An incremental secondary index over a tick-versioned entity/component
//! store: for every key, the set of entities whose component currently
//! projects to that key, brought up to date lazily on lookup.

pub mod entity_set;
pub mod index;
pub mod laws;
pub mod tick;
pub mod unique_multimap;

pub use entity_set::EntitySet;
pub use index::{Index, IndexInfo, IndexStorage, Stamped};
pub use unique_multimap::UniqueMultiMap;
