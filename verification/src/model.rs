//! The mathematical model of a registry's contents: spec functions over the
//! sequence of stored items, the lemmas that relate them, and the laws the
//! registry obeys.

use vstd::prelude::*;

use crate::item::Item;

verus! {

/// True when no two items in `s` share an id.
pub open spec fn unique_ids<P>(s: Seq<Item<P>>) -> bool {
    forall|i: int, j: int|
        0 <= i < s.len() && 0 <= j < s.len() && i != j ==> s[i].id@ != s[j].id@
}

/// True when every item in `s` is well-formed.
pub open spec fn all_wf<P>(s: Seq<Item<P>>) -> bool {
    forall|i: int| 0 <= i < s.len() ==> s[i].wf()
}

/// True when some item in `s` carries the id `id`.
pub open spec fn has_id<P>(s: Seq<Item<P>>, id: Seq<char>) -> bool {
    exists|i: int| 0 <= i < s.len() && s[i].id@ == id
}

/// The position of the item carrying `id`; meaningful only when
/// `has_id(s, id)` holds, and then unique whenever ids are unique.
pub open spec fn idx_of<P>(s: Seq<Item<P>>, id: Seq<char>) -> int {
    choose|i: int| 0 <= i < s.len() && s[i].id@ == id
}

/// The sum of the quantities of the items in `s`, as an unbounded integer.
pub open spec fn spec_sum<P>(s: Seq<Item<P>>) -> int
    decreases s.len(),
{
    if s.len() == 0 {
        0
    } else {
        spec_sum(s.drop_last()) + s.last().quantity
    }
}

/// The items of `s` whose name is exactly `name`, in the order they appear.
pub open spec fn by_name<P>(s: Seq<Item<P>>, name: Seq<char>) -> Seq<Item<P>> {
    s.filter(|it: Item<P>| it.name@ == name)
}

/// When ids are unique, the position holding `id` is the one `idx_of` names.
pub proof fn lemma_idx_of_unique<P>(s: Seq<Item<P>>, id: Seq<char>, i: int)
    requires
        unique_ids(s),
        0 <= i < s.len(),
        s[i].id@ == id,
    ensures
        has_id(s, id),
        idx_of(s, id) == i,
{
    assert(has_id(s, id)) by {
        assert(0 <= i < s.len() && s[i].id@ == id);
    }
    let j = idx_of(s, id);
    assert(0 <= j < s.len() && s[j].id@ == id);
    if i != j {
        assert(s[i].id@ != s[j].id@);
    }
}

/// A sum of quantities is never negative.
pub proof fn lemma_sum_nonneg<P>(s: Seq<Item<P>>)
    ensures
        spec_sum(s) >= 0,
    decreases s.len(),
{
    if s.len() > 0 {
        lemma_sum_nonneg(s.drop_last());
    }
}

/// Appending an item adds exactly its quantity to the sum.
pub proof fn lemma_sum_push<P>(s: Seq<Item<P>>, x: Item<P>)
    ensures
        spec_sum(s.push(x)) == spec_sum(s) + x.quantity,
{
    assert(s.push(x).drop_last() =~= s);
    assert(s.push(x).last() == x);
}

/// Replacing the item at `i` shifts the sum by the difference in quantity.
pub proof fn lemma_sum_update<P>(s: Seq<Item<P>>, i: int, x: Item<P>)
    requires
        0 <= i < s.len(),
    ensures
        spec_sum(s.update(i, x)) == spec_sum(s) - s[i].quantity + x.quantity,
    decreases s.len(),
{
    let t = s.update(i, x);
    if i == s.len() - 1 {
        assert(t.drop_last() =~= s.drop_last());
        assert(t.last() == x);
    } else {
        assert(t.drop_last() =~= s.drop_last().update(i, x));
        lemma_sum_update(s.drop_last(), i, x);
        assert(t.last() == s.last());
        assert(s.drop_last()[i] == s[i]);
    }
}

/// Removing the item at `i` subtracts exactly its quantity from the sum.
pub proof fn lemma_sum_remove<P>(s: Seq<Item<P>>, i: int)
    requires
        0 <= i < s.len(),
    ensures
        spec_sum(s.remove(i)) == spec_sum(s) - s[i].quantity,
    decreases s.len(),
{
    let t = s.remove(i);
    if i == s.len() - 1 {
        assert(t =~= s.drop_last());
    } else {
        assert(t.drop_last() =~= s.drop_last().remove(i));
        lemma_sum_remove(s.drop_last(), i);
        assert(t.last() == s.last());
        assert(s.drop_last()[i] == s[i]);
    }
}

/// No single quantity exceeds the sum of all of them.
pub proof fn lemma_sum_element_le<P>(s: Seq<Item<P>>, i: int)
    requires
        0 <= i < s.len(),
    ensures
        s[i].quantity <= spec_sum(s),
{
    lemma_sum_remove(s, i);
    lemma_sum_nonneg(s.remove(i));
}

/// Extending a prefix by one item adds that item's quantity to its sum.
pub proof fn lemma_sum_take_succ<P>(s: Seq<Item<P>>, i: int)
    requires
        0 <= i < s.len(),
    ensures
        spec_sum(s.take(i + 1)) == spec_sum(s.take(i)) + s[i].quantity,
{
    assert(s.take(i + 1).drop_last() =~= s.take(i));
    assert(s.take(i + 1).last() == s[i]);
}

/// The sum over a prefix never exceeds the sum over the whole sequence.
pub proof fn lemma_sum_take_le<P>(s: Seq<Item<P>>, i: int)
    requires
        0 <= i <= s.len(),
    ensures
        spec_sum(s.take(i)) <= spec_sum(s),
    decreases s.len() - i,
{
    if i == s.len() {
        assert(s.take(i) =~= s);
    } else {
        lemma_sum_take_succ(s, i);
        lemma_sum_take_le(s, i + 1);
    }
}

/// Law: adding an item under a fresh id and then looking that id up finds
/// exactly the added item, equal in all fields.
pub proof fn lemma_add_then_get<P>(s: Seq<Item<P>>, item: Item<P>)
    requires
        unique_ids(s),
        !has_id(s, item.id@),
    ensures
        has_id(s.push(item), item.id@),
        s.push(item)[idx_of(s.push(item), item.id@)] == item,
{
    let t = s.push(item);
    assert forall|k: int| 0 <= k < s.len() implies s[k].id@ != item.id@ by {
        if s[k].id@ == item.id@ {
            assert(has_id(s, item.id@));
        }
    }
    assert forall|a: int, b: int|
        0 <= a < t.len() && 0 <= b < t.len() && a != b implies t[a].id@ != t[b].id@ by {
        if a < s.len() && b < s.len() {
            assert(t[a] == s[a]);
            assert(t[b] == s[b]);
        } else if a == s.len() {
            assert(t[a] == item);
            assert(t[b] == s[b]);
        } else {
            assert(t[a] == s[a]);
            assert(t[b] == item);
        }
    }
    lemma_idx_of_unique(t, item.id@, s.len() as int);
}

/// Law: once an item is stored, its id is taken, so by `add_item`'s contract
/// a second add under the same id fails with `ItemAlreadyExists` and leaves
/// the registry unchanged.
pub proof fn lemma_duplicate_add_rejected<P>(s: Seq<Item<P>>, first: Item<P>, second: Item<P>)
    requires
        second.id@ == first.id@,
    ensures
        has_id(s.push(first), second.id@),
{
    let t = s.push(first);
    assert(has_id(t, second.id@)) by {
        assert(0 <= s.len() && t[s.len() as int].id@ == second.id@);
    }
}

} // verus!
