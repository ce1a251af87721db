//! An in-memory inventory registry: a keyed collection of items, each carrying
//! an identifier, a display name, a quantity, and an open-ended property map.
//! The registry is the sole owner of its items and the sole authority on id
//! uniqueness and on the aggregate total-quantity query.

pub mod errors;
pub mod inventory;
pub mod item;
pub mod model;
