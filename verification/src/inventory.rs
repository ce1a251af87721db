//! The registry itself: the exclusive owner of all items, the sole authority
//! on id uniqueness and on the aggregate total-quantity query.

use vstd::prelude::*;

use crate::errors::InventoryError;
use crate::item::Item;
use crate::model::{all_wf, by_name, has_id, idx_of, spec_sum, unique_ids};
use crate::model::{
    lemma_idx_of_unique, lemma_sum_element_le, lemma_sum_push, lemma_sum_remove,
    lemma_sum_take_le, lemma_sum_take_succ, lemma_sum_update,
};

verus! {

/// A keyed collection of items: every stored item is reachable by exactly its
/// own id, no two stored items share an id, and the total quantity always
/// fits in a `u64`. The view of a registry is the sequence of its items in
/// insertion order.
pub struct Inventory<P> {
    items: Vec<Item<P>>,
}

impl<P> View for Inventory<P> {
    type V = Seq<Item<P>>;

    closed spec fn view(&self) -> Seq<Item<P>> {
        self.items@
    }
}

impl<P> Inventory<P> {
    /// Internal well-formedness: ids pairwise distinct, every stored item
    /// well-formed, and the total quantity within `u64` range.
    #[verifier::type_invariant]
    spec fn inv(self) -> bool {
        &&& unique_ids(self.items@)
        &&& all_wf(self.items@)
        &&& spec_sum(self.items@) <= u64::MAX as int
    }

    /// Creates an empty registry.
    pub fn new() -> (r: Self)
        ensures
            r@ == Seq::<Item<P>>::empty(),
    {
        Inventory { items: Vec::new() }
    }

    /// The position of the item carrying `item_id`, or `None` if no stored
    /// item carries it.
    fn find_index(&self, item_id: &str) -> (r: Option<usize>)
        ensures
            match r {
                Some(i) => i < self@.len() && self@[i as int].id@ == item_id@,
                None => !has_id(self@, item_id@),
            },
    {
        let key: String = item_id.to_owned();
        let n = self.items.len();
        let mut j: usize = 0;
        while j < n
            invariant
                j <= n,
                n == self@.len(),
                key@ == item_id@,
                forall|k: int| 0 <= k < j ==> self@[k].id@ != item_id@,
            decreases n - j,
        {
            if self.items[j].id == key {
                return Some(j);
            }
            j = j + 1;
        }
        None
    }

    /// The sum of the quantities of all stored items; 0 for an empty
    /// registry. The registry keeps this sum within `u64` range, so the
    /// linear scan cannot overflow.
    pub fn get_total_quantity(&self) -> (r: u64)
        ensures
            r as int == spec_sum(self@),
    {
        proof {
            use_type_invariant(&*self);
        }
        let n = self.items.len();
        let mut total: u64 = 0;
        let mut j: usize = 0;
        while j < n
            invariant
                j <= n,
                n == self@.len(),
                total as int == spec_sum(self@.take(j as int)),
                spec_sum(self@) <= u64::MAX as int,
            decreases n - j,
        {
            proof {
                lemma_sum_take_succ(self@, j as int);
                lemma_sum_take_le(self@, j as int + 1);
            }
            total = total + self.items[j].quantity;
            j = j + 1;
        }
        proof {
            assert(self@.take(n as int) =~= self@);
        }
        total
    }

    /// Inserts `item`, taking ownership. Fails with `ItemAlreadyExists` when
    /// an item with the same id is already stored, and with `InvalidQuantity`
    /// when accepting the quantity would push the total past `u64::MAX`; on
    /// failure the registry is unchanged. Otherwise the item is appended.
    pub fn add_item(&mut self, item: Item<P>) -> (r: Result<(), InventoryError>)
        requires
            item.wf(),
        ensures
            has_id(old(self)@, item.id@) ==> {
                &&& r == Err::<(), InventoryError>(InventoryError::ItemAlreadyExists)
                &&& final(self)@ == old(self)@
            },
            !has_id(old(self)@, item.id@) && spec_sum(old(self)@) + item.quantity > u64::MAX
                ==> {
                &&& r == Err::<(), InventoryError>(InventoryError::InvalidQuantity)
                &&& final(self)@ == old(self)@
            },
            !has_id(old(self)@, item.id@) && spec_sum(old(self)@) + item.quantity <= u64::MAX
                ==> {
                &&& r == Ok::<(), InventoryError>(())
                &&& final(self)@ == old(self)@.push(item)
            },
    {
        proof {
            use_type_invariant(&*self);
        }
        match self.find_index(item.id.as_str()) {
            Some(i) => {
                proof {
                    assert(has_id(self@, item.id@)) by {
                        assert(self@[i as int].id@ == item.id@);
                    }
                }
                Err(InventoryError::ItemAlreadyExists)
            },
            None => {
                let total = self.get_total_quantity();
                match total.checked_add(item.quantity) {
                    None => Err(InventoryError::InvalidQuantity),
                    Some(_) => {
                        let ghost s = self@;
                        proof {
                            lemma_sum_push(s, item);
                            assert forall|k: int| 0 <= k < s.len() implies s[k].id@ != item.id@ by {
                                if s[k].id@ == item.id@ {
                                    assert(has_id(s, item.id@));
                                }
                            }
                            assert forall|a: int, b: int|
                                0 <= a < s.push(item).len() && 0 <= b < s.push(item).len() && a
                                    != b implies s.push(item)[a].id@ != s.push(item)[b].id@ by {
                                if a < s.len() && b < s.len() {
                                } else if a == s.len() {
                                    assert(s.push(item)[b] == s[b]);
                                } else {
                                    assert(s.push(item)[a] == s[a]);
                                }
                            }
                            assert forall|k: int|
                                0 <= k < s.push(item).len() implies s.push(item)[k].wf() by {
                                if k < s.len() {
                                    assert(s.push(item)[k] == s[k]);
                                }
                            }
                        }
                        let mut items: Vec<Item<P>> = Vec::new();
                        core::mem::swap(&mut items, &mut self.items);
                        items.push(item);
                        self.items = items;
                        Ok(())
                    },
                }
            },
        }
    }

    /// Replaces the mutable fields (name, quantity, properties) of the item
    /// stored under `item_id` with those of `new_item`; the stored id stays
    /// authoritative and `new_item.id` is ignored. Fails with `ItemNotFound`
    /// when no item carries `item_id`, and with `InvalidQuantity` when the
    /// new quantity would push the total past `u64::MAX`; on failure the
    /// registry is unchanged.
    pub fn update_item(&mut self, item_id: &str, new_item: Item<P>) -> (r: Result<
        (),
        InventoryError,
    >)
        requires
            new_item.wf(),
        ensures
            !has_id(old(self)@, item_id@) ==> {
                &&& r == Err::<(), InventoryError>(InventoryError::ItemNotFound)
                &&& final(self)@ == old(self)@
            },
            has_id(old(self)@, item_id@) ==> ({
                let i = idx_of(old(self)@, item_id@);
                let new_sum = spec_sum(old(self)@) - old(self)@[i].quantity + new_item.quantity;
                &&& new_sum > u64::MAX ==> {
                    &&& r == Err::<(), InventoryError>(InventoryError::InvalidQuantity)
                    &&& final(self)@ == old(self)@
                }
                &&& new_sum <= u64::MAX ==> {
                    &&& r == Ok::<(), InventoryError>(())
                    &&& final(self)@ == old(self)@.update(
                        i,
                        old(self)@[i].updated_from(new_item),
                    )
                }
            }),
    {
        proof {
            use_type_invariant(&*self);
        }
        match self.find_index(item_id) {
            None => Err(InventoryError::ItemNotFound),
            Some(i) => {
                proof {
                    lemma_idx_of_unique(self@, item_id@, i as int);
                    lemma_sum_element_le(self@, i as int);
                }
                let total = self.get_total_quantity();
                let old_quantity = self.items[i].quantity;
                match (total - old_quantity).checked_add(new_item.quantity) {
                    None => Err(InventoryError::InvalidQuantity),
                    Some(_) => {
                        let ghost s = self@;
                        let Item { id: _, name, quantity, properties } = new_item;
                        let stored_id = self.items[i].id.clone();
                        let replacement = Item { id: stored_id, name, quantity, properties };
                        proof {
                            lemma_sum_update(s, i as int, replacement);
                            let t = s.update(i as int, replacement);
                            assert forall|a: int, b: int|
                                0 <= a < t.len() && 0 <= b < t.len() && a != b implies t[a].id@
                                != t[b].id@ by {
                                assert(t[a].id@ == s[a].id@);
                                assert(t[b].id@ == s[b].id@);
                            }
                            assert forall|k: int| 0 <= k < t.len() implies t[k].wf() by {
                                if k != i {
                                    assert(t[k] == s[k]);
                                }
                            }
                        }
                        let mut items: Vec<Item<P>> = Vec::new();
                        core::mem::swap(&mut items, &mut self.items);
                        items[i] = replacement;
                        self.items = items;
                        Ok(())
                    },
                }
            },
        }
    }

    /// Removes the item stored under `item_id`. Fails with `ItemNotFound`
    /// when no item carries it; the registry is then unchanged.
    pub fn delete_item(&mut self, item_id: &str) -> (r: Result<(), InventoryError>)
        ensures
            !has_id(old(self)@, item_id@) ==> {
                &&& r == Err::<(), InventoryError>(InventoryError::ItemNotFound)
                &&& final(self)@ == old(self)@
            },
            has_id(old(self)@, item_id@) ==> {
                &&& r == Ok::<(), InventoryError>(())
                &&& final(self)@ == old(self)@.remove(idx_of(old(self)@, item_id@))
            },
    {
        proof {
            use_type_invariant(&*self);
        }
        match self.find_index(item_id) {
            None => Err(InventoryError::ItemNotFound),
            Some(i) => {
                let ghost s = self@;
                proof {
                    lemma_idx_of_unique(s, item_id@, i as int);
                    lemma_sum_remove(s, i as int);
                    let t = s.remove(i as int);
                    assert forall|a: int, b: int|
                        0 <= a < t.len() && 0 <= b < t.len() && a != b implies t[a].id@
                        != t[b].id@ by {}
                    assert forall|k: int| 0 <= k < t.len() implies t[k].wf() by {}
                }
                let mut items: Vec<Item<P>> = Vec::new();
                core::mem::swap(&mut items, &mut self.items);
                let _removed = items.remove(i);
                self.items = items;
                Ok(())
            },
        }
    }

    /// A borrowed view of the item stored under `item_id`, or `None` when no
    /// stored item carries it. No side effects.
    pub fn get_item_by_id(&self, item_id: &str) -> (r: Option<&Item<P>>)
        ensures
            has_id(self@, item_id@) ==> {
                &&& r matches Some(item)
                &&& *item == self@[idx_of(self@, item_id@)]
            },
            !has_id(self@, item_id@) ==> r is None,
    {
        proof {
            use_type_invariant(&*self);
        }
        match self.find_index(item_id) {
            None => None,
            Some(i) => {
                proof {
                    lemma_idx_of_unique(self@, item_id@, i as int);
                }
                Some(&self.items[i])
            },
        }
    }

    /// Borrowed views of all items whose name exactly equals `item_name`
    /// (case-sensitive), in insertion order; empty when none match. No side
    /// effects.
    pub fn get_items_by_name(&self, item_name: &str) -> (r: Vec<&Item<P>>)
        ensures
            r@.map_values(|item: &Item<P>| *item) == by_name(self@, item_name@),
    {
        let key: String = item_name.to_owned();
        let n = self.items.len();
        let mut result: Vec<&Item<P>> = Vec::new();
        let mut j: usize = 0;
        while j < n
            invariant
                j <= n,
                n == self@.len(),
                key@ == item_name@,
                result@.map_values(|item: &Item<P>| *item) == by_name(
                    self@.take(j as int),
                    item_name@,
                ),
            decreases n - j,
        {
            let ghost prefix = result@.map_values(|item: &Item<P>| *item);
            if self.items[j].name == key {
                result.push(&self.items[j]);
            }
            proof {
                reveal(Seq::filter);
                assert(self@.take(j as int + 1).drop_last() =~= self@.take(j as int));
                assert(self@.take(j as int + 1).last() == self@[j as int]);
                if self@[j as int].name@ == item_name@ {
                    assert(result@.map_values(|item: &Item<P>| *item) =~= prefix.push(
                        self@[j as int],
                    ));
                } else {
                    assert(result@.map_values(|item: &Item<P>| *item) =~= prefix);
                }
            }
            j = j + 1;
        }
        proof {
            assert(self@.take(n as int) =~= self@);
        }
        result
    }

    /// Borrowed views of all stored items, in insertion order. Repeated calls
    /// produce a fresh sequence reflecting the current state. No side
    /// effects.
    pub fn list(&self) -> (r: Vec<&Item<P>>)
        ensures
            r@.map_values(|item: &Item<P>| *item) == self@,
    {
        let n = self.items.len();
        let mut result: Vec<&Item<P>> = Vec::new();
        let mut j: usize = 0;
        while j < n
            invariant
                j <= n,
                n == self@.len(),
                result@.map_values(|item: &Item<P>| *item) == self@.take(j as int),
            decreases n - j,
        {
            let ghost prefix = result@.map_values(|item: &Item<P>| *item);
            result.push(&self.items[j]);
            proof {
                assert(result@.map_values(|item: &Item<P>| *item) =~= prefix.push(
                    self@[j as int],
                ));
                assert(self@.take(j as int + 1) =~= prefix.push(self@[j as int]));
            }
            j = j + 1;
        }
        proof {
            assert(self@.take(n as int) =~= self@);
        }
        result
    }
}

} // verus!
