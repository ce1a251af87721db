use vstd::prelude::*;

verus! {

/// The ways an inventory operation can fail. Every failure is reported to the
/// caller as an explicit `Result` value; no operation panics.
#[derive(Clone, Copy, Debug, PartialEq, Eq, Structural)]
pub enum InventoryError {
    /// `add_item` was given an item whose id is already present.
    ItemAlreadyExists,
    /// `update_item` or `delete_item` was given an id that is not present.
    ItemNotFound,
    /// Accepting the quantity would push the registry's total quantity past
    /// what a `u64` can hold.
    InvalidQuantity,
}

} // verus!
