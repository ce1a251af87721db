use vstd::prelude::*;

verus! {

/// A single inventory entry: a unique identifier, a display name, a
/// non-negative quantity, and an open-ended map from property names to values
/// of a caller-chosen type `P`, kept as a vector of pairs with pairwise
/// distinct keys.
#[derive(Debug, PartialEq, Eq)]
pub struct Item<P> {
    /// Unique within a registry; immutable once the item is stored.
    pub id: String,
    /// Display name; several items may share one.
    pub name: String,
    /// How many units are on hand.
    pub quantity: u64,
    /// Named attributes, keys pairwise distinct.
    pub properties: Vec<(String, P)>,
}

impl<P> Item<P> {
    /// A well-formed item has pairwise distinct property keys.
    pub open spec fn wf(self) -> bool {
        forall|i: int, j: int|
            0 <= i < j < self.properties@.len() ==> self.properties@[i].0@
                != self.properties@[j].0@
    }

    /// The item that `update_item` stores in place of `self`: the stored id is
    /// kept (the map key stays authoritative) while name, quantity and
    /// properties are taken from `source`.
    pub open spec fn updated_from(self, source: Item<P>) -> Item<P> {
        Item {
            id: self.id,
            name: source.name,
            quantity: source.quantity,
            properties: source.properties,
        }
    }
}

} // verus!
