//! Fixed-capacity registry of reference-counted slots.
//!
//! A table has `N` slots. Each slot pairs a reference count with storage for
//! at most one value: a count of zero means the slot is free and holds
//! nothing, a positive count means the slot holds exactly one live value that
//! this many handles refer to. Slots are handed out by index; the value of a
//! slot is dropped at the release that takes its count from one to zero.

pub mod capacity;
pub mod protocol;

use vstd::prelude::*;

verus! {

/// What one slot holds, as contracts see it.
pub struct Slot<T> {
    /// Number of outstanding references; zero for a free slot.
    pub count: nat,
    /// The stored value of a claimed slot, `None` for a free one.
    pub value: Option<T>,
}

/// A slot is free when nothing refers to it.
pub open spec fn is_free<T>(slots: Seq<Slot<T>>, index: int) -> bool {
    0 <= index < slots.len() && slots[index].count == 0
}

/// A slot is live when at least one handle refers to it.
pub open spec fn is_live<T>(slots: Seq<Slot<T>>, index: int) -> bool {
    0 <= index < slots.len() && slots[index].count > 0
}

/// Some slot of the table is free.
pub open spec fn has_free<T>(slots: Seq<Slot<T>>) -> bool {
    exists|i: int| is_free(slots, i)
}

/// `index` is the free slot with the lowest index.
pub open spec fn is_first_free<T>(slots: Seq<Slot<T>>, index: int) -> bool {
    &&& is_free(slots, index)
    &&& forall|j: int| 0 <= j < index ==> !is_free(slots, j)
}

/// The index that the next acquisition claims, if the table has a free slot.
pub open spec fn first_free<T>(slots: Seq<Slot<T>>) -> Option<int> {
    if has_free(slots) {
        Some(choose|i: int| is_first_free(slots, i))
    } else {
        None
    }
}

/// A table with a free slot has a free slot of lowest index, at or below
/// any given free slot.
pub proof fn lemma_lowest_free_exists<T>(slots: Seq<Slot<T>>, index: int) -> (lowest: int)
    requires
        is_free(slots, index),
    ensures
        is_first_free(slots, lowest),
        lowest <= index,
    decreases index,
{
    if exists|j: int| 0 <= j < index && is_free(slots, j) {
        let j = choose|j: int| 0 <= j < index && is_free(slots, j);
        lemma_lowest_free_exists(slots, j)
    } else {
        index
    }
}

/// The free slot of lowest index is the one that `first_free` names, and
/// there is only one such slot.
pub proof fn lemma_first_free_is_lowest<T>(slots: Seq<Slot<T>>, index: int)
    requires
        is_first_free(slots, index),
    ensures
        first_free(slots) == Some(index),
{
    let chosen = choose|i: int| is_first_free(slots, i);
    assert(is_first_free(slots, chosen));
    if chosen < index {
        assert(!is_free(slots, chosen));
    } else if index < chosen {
        assert(!is_free(slots, index));
    }
}

/// What `first_free` returns is the free slot of lowest index, and it
/// returns `None` exactly for a table without a free slot.
pub proof fn lemma_first_free_sound<T>(slots: Seq<Slot<T>>)
    ensures
        first_free(slots) is Some <==> has_free(slots),
        first_free(slots) is Some ==> is_first_free(slots, first_free(slots)->0),
{
    if has_free(slots) {
        let i = choose|i: int| is_free(slots, i);
        let lowest = lemma_lowest_free_exists(slots, i);
        lemma_first_free_is_lowest(slots, lowest);
    }
}

/// Every slot stores a value exactly while its count is positive.
pub open spec fn consistent<T>(slots: Seq<Slot<T>>) -> bool {
    forall|i: int| 0 <= i < slots.len() ==> (#[trigger] slots[i].count > 0 <==> slots[i].value is Some)
}

/// The table after slot `index` was claimed for `value` by a first handle.
pub open spec fn claimed<T>(slots: Seq<Slot<T>>, index: int, value: T) -> Seq<Slot<T>> {
    slots.update(index, Slot { count: 1, value: Some(value) })
}

/// The table after one more handle to slot `index` was made.
pub open spec fn retained<T>(slots: Seq<Slot<T>>, index: int) -> Seq<Slot<T>> {
    slots.update(index, Slot { count: slots[index].count + 1, value: slots[index].value })
}

/// The table after one handle to slot `index` was given up: the count drops
/// by one, and the release of the last handle empties the slot.
pub open spec fn released<T>(slots: Seq<Slot<T>>, index: int) -> Seq<Slot<T>> {
    if slots[index].count == 1 {
        slots.update(index, Slot { count: 0, value: None })
    } else {
        slots.update(
            index,
            Slot { count: (slots[index].count - 1) as nat, value: slots[index].value },
        )
    }
}

/// Reference-counting indexed container for `T` with `N` slots.
pub struct UnsafeArcArray<const N: usize, T> {
    ref_counts: Vec<u64>,
    items: Vec<Option<T>>,
}

impl<const N: usize, T> View for UnsafeArcArray<N, T> {
    type V = Seq<Slot<T>>;

    closed spec fn view(&self) -> Seq<Slot<T>> {
        Seq::new(
            self.ref_counts.len() as nat,
            |i: int| Slot { count: self.ref_counts[i] as nat, value: self.items[i] },
        )
    }
}

impl<const N: usize, T> UnsafeArcArray<N, T> {
    /// Both columns of the table have one entry per slot.
    pub closed spec fn shaped(&self) -> bool {
        self.ref_counts.len() == N && self.items.len() == N
    }

    /// The table has `N` slots, each count fits the counter, and a slot
    /// stores a value exactly while it is referenced.
    pub open spec fn wf(&self) -> bool {
        &&& self.shaped()
        &&& self@.len() == N
        &&& consistent(self@)
        &&& forall|i: int| 0 <= i < N ==> (#[trigger] self@[i]).count <= u64::MAX
    }

    /// A table whose slots are all free.
    pub fn new() -> (table: Self)
        ensures
            table.wf(),
            forall|i: int| 0 <= i < N ==> is_free(table@, i) && table@[i].value is None,
    {
        let mut ref_counts: Vec<u64> = Vec::new();
        let mut items: Vec<Option<T>> = Vec::new();
        let mut i: usize = 0;
        while i < N
            invariant
                i <= N,
                ref_counts.len() == i,
                items.len() == i,
                forall|j: int| 0 <= j < i ==> ref_counts[j] == 0 && items[j] is None,
            decreases N - i,
        {
            ref_counts.push(0);
            items.push(None);
            i += 1;
        }
        UnsafeArcArray { ref_counts, items }
    }

    /// Claims slot `index` for a first handle if it is free, and says whether
    /// it did. The slot's storage is left for the caller to fill.
    fn try_claim(&mut self, index: usize) -> (won: bool)
        requires
            old(self).shaped(),
            index < N,
        ensures
            final(self).shaped(),
            won == (old(self).ref_counts[index as int] == 0),
            final(self).items == old(self).items,
            final(self).ref_counts@ == (if won {
                old(self).ref_counts@.update(index as int, 1)
            } else {
                old(self).ref_counts@
            }),
    {
        if self.ref_counts[index] == 0 {
            self.ref_counts.set(index, 1);
            true
        } else {
            false
        }
    }

    /// Initializes the first free slot with the value that `init` makes and
    /// returns its index; returns `None`, and leaves the table as it is, when
    /// every slot is taken.
    pub fn acquire_and_init<F: FnOnce() -> T>(&mut self, init: F) -> (claim: Option<usize>)
        requires
            old(self).wf(),
            has_free(old(self)@) ==> init.requires(()),
        ensures
            final(self).wf(),
            claim is Some <==> has_free(old(self)@),
            first_free(old(self)@) == (match claim {
                Some(index) => Some(index as int),
                None => None,
            }),
            claim is None ==> final(self)@ == old(self)@,
            claim is Some ==> {
                let index = claim->0 as int;
                &&& is_first_free(old(self)@, index)
                &&& final(self)@[index].value is Some
                &&& init.ensures((), final(self)@[index].value->0)
                &&& final(self)@ == claimed(old(self)@, index, final(self)@[index].value->0)
            },
    {
        let mut index: usize = 0;
        while index < N
            invariant
                index <= N,
                self.wf(),
                old(self).wf(),
                has_free(old(self)@) ==> init.requires(()),
                self.ref_counts@ == old(self).ref_counts@,
                self.items@ == old(self).items@,
                forall|j: int| 0 <= j < index ==> !is_free(old(self)@, j),
            decreases N - index,
        {
            if self.try_claim(index) {
                assert(is_free(old(self)@, index as int));
                proof {
                    lemma_first_free_is_lowest(old(self)@, index as int);
                }
                let value = init();
                self.items.set(index, Some(value));
                assert(self@ =~= claimed(old(self)@, index as int, value));
                return Some(index);
            }
            index += 1;
        }
        assert(self@ =~= old(self)@);
        None
    }

    /// The number of references to slot `index`; zero for a free slot.
    pub fn ref_count(&self, index: usize) -> (count: u64)
        requires
            self.wf(),
            index < N,
        ensures
            count == self@[index as int].count,
    {
        self.ref_counts[index]
    }

    /// The value stored in the live slot `index`.
    pub fn get_ref(&self, index: usize) -> (value: &T)
        requires
            self.wf(),
            is_live(self@, index as int),
        ensures
            self@[index as int].value == Some(*value),
    {
        self.items[index].as_ref().unwrap()
    }

    /// Gives up one reference to the live slot `index`; the release of the
    /// last reference drops the stored value and frees the slot.
    pub fn dec_count(&mut self, index: usize)
        requires
            old(self).wf(),
            is_live(old(self)@, index as int),
        ensures
            final(self).wf(),
            final(self)@ == released(old(self)@, index as int),
    {
        let prev_count = self.ref_counts[index];
        self.ref_counts.set(index, prev_count - 1);
        if prev_count == 1 {
            self.items.set(index, None);
        }
        assert(self@ =~= released(old(self)@, index as int));
    }

    /// Adds one reference to the live slot `index`.
    pub fn inc_count(&mut self, index: usize)
        requires
            old(self).wf(),
            is_live(old(self)@, index as int),
            old(self)@[index as int].count < u64::MAX,
        ensures
            final(self).wf(),
            final(self)@ == retained(old(self)@, index as int),
    {
        let prev_count = self.ref_counts[index];
        self.ref_counts.set(index, prev_count + 1);
        assert(self@ =~= retained(old(self)@, index as int));
    }
}

impl<const N: usize, T> Default for UnsafeArcArray<N, T> {
    fn default() -> (table: Self)
        ensures
            table.wf(),
            forall|i: int| 0 <= i < N ==> is_free(table@, i) && table@[i].value is None,
    {
        Self::new()
    }
}

} // verus!
