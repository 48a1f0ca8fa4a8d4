//! How a table fills up, runs out of slots and takes released slots back.

use crate::arc_array::{
    claimed, consistent, first_free, has_free, is_first_free, is_free, lemma_first_free_is_lowest,
    lemma_lowest_free_exists, released, Slot,
};
use vstd::prelude::*;

verus! {

/// A table of `n` free slots.
pub open spec fn fresh<T>(n: nat) -> Seq<Slot<T>> {
    Seq::new(n, |i: int| Slot { count: 0, value: None })
}

/// The table after one acquisition that stores `value`: the first free slot
/// is claimed, and a full table stays as it is.
pub open spec fn acquired<T>(slots: Seq<Slot<T>>, value: T) -> Seq<Slot<T>> {
    match first_free(slots) {
        Some(index) => claimed(slots, index, value),
        None => slots,
    }
}

/// The table after one acquisition for each of `values`, in their order.
pub open spec fn acquired_all<T>(slots: Seq<Slot<T>>, values: Seq<T>) -> Seq<Slot<T>>
    decreases values.len(),
{
    if values.len() == 0 {
        slots
    } else {
        acquired(acquired_all(slots, values.drop_last()), values.last())
    }
}

/// After `values.len()` acquisitions on a fresh table of at least that many
/// slots, slot `k` holds the `k`-th value under one reference and the slots
/// behind them are still free.
pub proof fn lemma_fresh_table_fills_in_order<T>(n: nat, values: Seq<T>)
    requires
        values.len() <= n,
    ensures
        acquired_all(fresh::<T>(n), values).len() == n,
        forall|i: int|
            0 <= i < values.len() ==> (#[trigger] acquired_all(fresh::<T>(n), values)[i]) == (Slot {
                count: 1,
                value: Some(values[i]),
            }),
        forall|i: int|
            values.len() <= i < n ==> (#[trigger] acquired_all(fresh::<T>(n), values)[i]) == (Slot::<T> {
                count: 0,
                value: None,
            }),
    decreases values.len(),
{
    if values.len() > 0 {
        let before = acquired_all(fresh::<T>(n), values.drop_last());
        lemma_fresh_table_fills_in_order(n, values.drop_last());
        let k = values.len() - 1;
        assert(is_free(before, k));
        assert forall|j: int| 0 <= j < k implies !is_free(before, j) by {
            assert(before[j].count == 1);
        }
        lemma_first_free_is_lowest(before, k);
        let after = acquired_all(fresh::<T>(n), values);
        assert(after == claimed(before, k, values.last()));
        assert forall|i: int| 0 <= i < values.len() implies (#[trigger] after[i]) == (Slot {
            count: 1,
            value: Some(values[i]),
        }) by {
            if i < k {
                assert(before[i] == (Slot { count: 1, value: Some(values.drop_last()[i]) }));
            }
        }
    }
}

/// Capacity: on a fresh table of `n` slots, each of `n` acquisitions in a row
/// succeeds, the `k`-th of them claiming slot `k`; the table then has no free
/// slot, so that one more acquisition is refused and leaves it unchanged; and
/// once the last reference to any one slot is released, that slot is the
/// first free one, so that the next acquisition succeeds and claims it.
pub proof fn lemma_capacity<T>(n: nat, values: Seq<T>, extra: T)
    requires
        values.len() == n,
    ensures
        forall|k: int|
            0 <= k < n ==> #[trigger] first_free(acquired_all(fresh::<T>(n), values.take(k))) == Some(k),
        !has_free(acquired_all(fresh::<T>(n), values)),
        first_free(acquired_all(fresh::<T>(n), values)) is None,
        acquired(acquired_all(fresh::<T>(n), values), extra) == acquired_all(fresh::<T>(n), values),
        consistent(acquired_all(fresh::<T>(n), values)),
        forall|i: int|
            0 <= i < n ==> #[trigger] is_first_free(released(acquired_all(fresh::<T>(n), values), i), i),
{
    let full = acquired_all(fresh::<T>(n), values);
    lemma_fresh_table_fills_in_order(n, values);
    assert forall|k: int| 0 <= k < n implies #[trigger] first_free(
        acquired_all(fresh::<T>(n), values.take(k)),
    ) == Some(k) by {
        let part = acquired_all(fresh::<T>(n), values.take(k));
        lemma_fresh_table_fills_in_order(n, values.take(k));
        assert(is_free(part, k));
        assert forall|j: int| 0 <= j < k implies !is_free(part, j) by {
            assert(part[j].count == 1);
        }
        lemma_first_free_is_lowest(part, k);
    }
    assert forall|i: int| !is_free(full, i) by {
        if 0 <= i < n {
            assert(full[i].count == 1);
        }
    }
    assert forall|i: int| 0 <= i < n implies #[trigger] is_first_free(released(full, i), i) by {
        let freed = released(full, i);
        assert(full[i].count == 1);
        assert forall|j: int| 0 <= j < i implies !is_free(freed, j) by {
            assert(freed[j] == full[j]);
            assert(full[j].count == 1);
        }
    }
    assert forall|i: int| 0 <= i < full.len() implies (#[trigger] full[i].count > 0
        <==> full[i].value is Some) by {
        assert(full[i] == (Slot { count: 1, value: Some(values[i]) }));
    }
}

/// Reuse: when the last reference to slot `index` of a consistent table is
/// released, the slot is free and empty again and the table stays
/// consistent; the next acquisition finds a free slot at or below `index`,
/// and a claim of `index` stores the new value there, whatever the slot held
/// before, and touches no other slot.
pub proof fn lemma_released_slot_is_reusable<T>(slots: Seq<Slot<T>>, index: int, value: T)
    requires
        consistent(slots),
        0 <= index < slots.len(),
        slots[index].count == 1,
    ensures
        is_free(released(slots, index), index),
        released(slots, index)[index].value is None,
        consistent(released(slots, index)),
        first_free(released(slots, index)) is Some,
        first_free(released(slots, index))->0 <= index,
        !has_free(slots) ==> first_free(released(slots, index)) == Some(index),
        claimed(released(slots, index), index, value)[index] == (Slot {
            count: 1,
            value: Some(value),
        }),
        consistent(claimed(released(slots, index), index, value)),
        forall|j: int|
            0 <= j < slots.len() && j != index ==> #[trigger] claimed(
                released(slots, index),
                index,
                value,
            )[j] == slots[j],
{
    let freed = released(slots, index);
    assert(is_free(freed, index));
    let lowest = lemma_lowest_free_exists(freed, index);
    lemma_first_free_is_lowest(freed, lowest);
    assert forall|i: int| 0 <= i < freed.len() implies (#[trigger] freed[i].count > 0
        <==> freed[i].value is Some) by {
        if i != index {
            assert(freed[i] == slots[i]);
            assert(slots[i].count > 0 <==> slots[i].value is Some);
        }
    }
    if !has_free(slots) {
        assert forall|j: int| 0 <= j < index implies !is_free(freed, j) by {
            assert(freed[j] == slots[j]);
            assert(!is_free(slots, j));
        }
        lemma_first_free_is_lowest(freed, index);
    }
    let again = claimed(freed, index, value);
    assert forall|i: int| 0 <= i < again.len() implies (#[trigger] again[i].count > 0
        <==> again[i].value is Some) by {
        if i != index {
            assert(again[i] == freed[i]);
            assert(freed[i].count > 0 <==> freed[i].value is Some);
        }
    }
}

} // verus!
