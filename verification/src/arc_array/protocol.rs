//! The reference-count protocol of one slot, over whole runs of
//! increments and decrements.

use crate::arc_array::{consistent, is_live, released, retained, Slot};
use vstd::prelude::*;

verus! {

/// One use of a handle that changes the count of its slot.
pub enum Step {
    /// A handle is duplicated: the count goes up by one.
    Retain,
    /// A handle is disposed of: the count goes down by one.
    Release,
}

/// The table after one step on slot `index`.
pub open spec fn stepped<T>(slots: Seq<Slot<T>>, index: int, step: Step) -> Seq<Slot<T>> {
    match step {
        Step::Retain => retained(slots, index),
        Step::Release => released(slots, index),
    }
}

/// The table after all of `steps` on slot `index`, in their order.
pub open spec fn replayed<T>(slots: Seq<Slot<T>>, index: int, steps: Seq<Step>) -> Seq<Slot<T>>
    decreases steps.len(),
{
    if steps.len() == 0 {
        slots
    } else {
        stepped(replayed(slots, index, steps.drop_last()), index, steps.last())
    }
}

/// Every step of the run finds the slot live, as the operations demand:
/// no handle is used after the last one was disposed of.
pub open spec fn protocol_kept<T>(slots: Seq<Slot<T>>, index: int, steps: Seq<Step>) -> bool {
    forall|k: int|
        0 <= k < steps.len() ==> is_live(#[trigger] replayed(slots, index, steps.take(k)), index)
}

/// The step is the release of the last reference: the one that drops the
/// stored value.
pub open spec fn destroys<T>(slots: Seq<Slot<T>>, index: int, step: Step) -> bool {
    step is Release && slots[index].count == 1
}

/// How often the run drops the value stored in slot `index`.
pub open spec fn destructions<T>(slots: Seq<Slot<T>>, index: int, steps: Seq<Step>) -> nat
    decreases steps.len(),
{
    if steps.len() == 0 {
        0
    } else {
        let before = destructions(slots, index, steps.drop_last());
        if destroys(replayed(slots, index, steps.drop_last()), index, steps.last()) {
            before + 1
        } else {
            before
        }
    }
}

/// Number of increments in the run.
pub open spec fn retains(steps: Seq<Step>) -> nat
    decreases steps.len(),
{
    if steps.len() == 0 {
        0
    } else if steps.last() is Retain {
        retains(steps.drop_last()) + 1
    } else {
        retains(steps.drop_last())
    }
}

/// Number of decrements in the run.
pub open spec fn releases(steps: Seq<Step>) -> nat
    decreases steps.len(),
{
    if steps.len() == 0 {
        0
    } else if steps.last() is Release {
        releases(steps.drop_last()) + 1
    } else {
        releases(steps.drop_last())
    }
}

/// A run that keeps the protocol keeps it on each of its prefixes.
proof fn lemma_prefix_keeps_protocol<T>(slots: Seq<Slot<T>>, index: int, steps: Seq<Step>, len: int)
    requires
        protocol_kept(slots, index, steps),
        0 <= len <= steps.len(),
    ensures
        protocol_kept(slots, index, steps.take(len)),
{
    assert forall|k: int| 0 <= k < len implies is_live(
        #[trigger] replayed(slots, index, steps.take(len).take(k)),
        index,
    ) by {
        assert(steps.take(len).take(k) =~= steps.take(k));
    }
}

/// Along a run that keeps the protocol the count is the initial count plus
/// the increments minus the decrements; only slot `index` changes; and as
/// long as the count is positive, the slot holds the value it held at first
/// and nothing was dropped.
pub proof fn lemma_count_follows_steps<T>(slots: Seq<Slot<T>>, index: int, steps: Seq<Step>)
    requires
        consistent(slots),
        is_live(slots, index),
        protocol_kept(slots, index, steps),
    ensures
        replayed(slots, index, steps).len() == slots.len(),
        consistent(replayed(slots, index, steps)),
        replayed(slots, index, steps)[index].count == slots[index].count + retains(steps)
            - releases(steps),
        forall|j: int|
            0 <= j < slots.len() && j != index ==> #[trigger] replayed(slots, index, steps)[j]
                == slots[j],
        is_live(replayed(slots, index, steps), index) ==> {
            &&& replayed(slots, index, steps)[index].value == slots[index].value
            &&& destructions(slots, index, steps) == 0
        },
        !is_live(replayed(slots, index, steps), index) ==> {
            &&& steps.len() > 0
            &&& destroys(replayed(slots, index, steps.drop_last()), index, steps.last())
            &&& replayed(slots, index, steps)[index].value is None
            &&& destructions(slots, index, steps) == 1
        },
    decreases steps.len(),
{
    if steps.len() > 0 {
        let head = steps.drop_last();
        assert(head =~= steps.take(steps.len() - 1));
        lemma_prefix_keeps_protocol(slots, index, steps, steps.len() - 1);
        lemma_count_follows_steps(slots, index, head);
        let before = replayed(slots, index, head);
        let after = replayed(slots, index, steps);
        assert(is_live(before, index));
        assert(after == stepped(before, index, steps.last()));
        assert forall|i: int| 0 <= i < after.len() implies (#[trigger] after[i].count > 0
            <==> after[i].value is Some) by {
            if i != index {
                assert(after[i] == before[i]);
            }
            assert(before[i].count > 0 <==> before[i].value is Some);
        }
        assert forall|j: int| 0 <= j < slots.len() && j != index implies #[trigger] after[j]
            == slots[j] by {
            assert(after[j] == before[j]);
        }
    }
}

/// Single destruction: take a live slot of a consistent table and any run of
/// increments and decrements on it that keeps the protocol. If the run has
/// as many decrements as the initial count and its increments together, the
/// stored value is dropped exactly once, by the last step of the run, which
/// is a decrement that finds the count at one; the slot is then free and
/// empty, and no other slot has changed.
pub proof fn lemma_single_destruction<T>(slots: Seq<Slot<T>>, index: int, steps: Seq<Step>)
    requires
        consistent(slots),
        is_live(slots, index),
        protocol_kept(slots, index, steps),
        releases(steps) == slots[index].count + retains(steps),
    ensures
        destructions(slots, index, steps) == 1,
        steps.len() > 0,
        steps.last() is Release,
        replayed(slots, index, steps.drop_last())[index].count == 1,
        destructions(slots, index, steps.drop_last()) == 0,
        forall|k: int|
            0 <= k < steps.len() && destroys(
                #[trigger] replayed(slots, index, steps.take(k)),
                index,
                steps[k],
            ) ==> k == steps.len() - 1,
        replayed(slots, index, steps)[index] == (Slot::<T> { count: 0, value: None }),
        forall|j: int|
            0 <= j < slots.len() && j != index ==> #[trigger] replayed(slots, index, steps)[j]
                == slots[j],
{
    lemma_count_follows_steps(slots, index, steps);
    let head = steps.drop_last();
    assert(head =~= steps.take(steps.len() - 1));
    lemma_prefix_keeps_protocol(slots, index, steps, steps.len() - 1);
    lemma_count_follows_steps(slots, index, head);
    assert forall|k: int|
        0 <= k < steps.len() && destroys(
            #[trigger] replayed(slots, index, steps.take(k)),
            index,
            steps[k],
        ) implies k == steps.len() - 1 by {
        if k < steps.len() - 1 {
            let upto = steps.take(k + 1);
            lemma_prefix_keeps_protocol(slots, index, steps, k + 1);
            lemma_count_follows_steps(slots, index, upto);
            assert(upto.drop_last() =~= steps.take(k));
            assert(upto.last() == steps[k]);
            assert(is_live(replayed(slots, index, steps.take(k + 1)), index));
        }
    }
}

/// No premature destruction: while a run keeps the protocol, every step of
/// it finds in the slot the value that the slot held at first, and so does
/// the end of the run if the count is still positive there.
pub proof fn lemma_no_premature_destruction<T>(slots: Seq<Slot<T>>, index: int, steps: Seq<Step>)
    requires
        consistent(slots),
        is_live(slots, index),
        protocol_kept(slots, index, steps),
    ensures
        slots[index].value is Some,
        forall|k: int|
            0 <= k < steps.len() ==> (#[trigger] replayed(slots, index, steps.take(k)))[index].value
                == slots[index].value,
        is_live(replayed(slots, index, steps), index) ==> replayed(slots, index, steps)[index].value
            == slots[index].value,
{
    lemma_count_follows_steps(slots, index, steps);
    assert forall|k: int| 0 <= k < steps.len() implies (#[trigger] replayed(
        slots,
        index,
        steps.take(k),
    ))[index].value == slots[index].value by {
        lemma_prefix_keeps_protocol(slots, index, steps, k);
        lemma_count_follows_steps(slots, index, steps.take(k));
    }
}

} // verus!
