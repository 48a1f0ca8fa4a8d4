use pibaf::arc_array::UnsafeArcArray;
use std::cell::Cell;
use std::rc::Rc;

struct DropSet {
    v: i64,
    cell: Rc<Cell<i64>>,
}

impl DropSet {
    fn set(&self, v: i64) {
        self.cell.set(v);
    }

    fn new(v: i64) -> (Self, Rc<Cell<i64>>) {
        let cell = Rc::new(Cell::new(0));
        (
            Self {
                v,
                cell: cell.clone(),
            },
            cell,
        )
    }
}

impl Drop for DropSet {
    fn drop(&mut self) {
        self.cell.set(self.v)
    }
}

struct DropCount {
    drops: Rc<Cell<u32>>,
}

impl Drop for DropCount {
    fn drop(&mut self) {
        self.drops.set(self.drops.get() + 1);
    }
}

#[test]
fn basic() {
    let mut arr = UnsafeArcArray::<11, DropSet>::default();
    let (ds, cell) = DropSet::new(11);
    let idx = arr.acquire_and_init(|| ds).unwrap();
    assert_eq!(cell.get(), 0);
    arr.get_ref(idx).set(6);
    assert_eq!(cell.get(), 6);
    arr.dec_count(idx);
    assert_eq!(cell.get(), 11);
}

#[test]
fn fill_capacity() {
    let mut arr = UnsafeArcArray::<3, i64>::default();
    let idx1 = arr.acquire_and_init(|| 1);
    let idx2 = arr.acquire_and_init(|| 2);
    let idx3 = arr.acquire_and_init(|| 3);
    let idx4 = arr.acquire_and_init(|| 4);

    assert!(idx1.is_some());
    assert!(idx2.is_some());
    assert!(idx3.is_some());
    assert!(idx4.is_none());
}

#[test]
fn acquisitions_claim_slots_in_index_order() {
    let mut arr = UnsafeArcArray::<3, i64>::new();
    assert_eq!(arr.acquire_and_init(|| 1), Some(0));
    assert_eq!(arr.acquire_and_init(|| 2), Some(1));
    assert_eq!(arr.acquire_and_init(|| 3), Some(2));
    assert_eq!(*arr.get_ref(0), 1);
    assert_eq!(*arr.get_ref(1), 2);
    assert_eq!(*arr.get_ref(2), 3);
}

#[test]
fn full_table_refuses_then_takes_the_freed_slot() {
    let mut arr = UnsafeArcArray::<3, i64>::new();
    let idx1 = arr.acquire_and_init(|| 1).unwrap();
    let idx2 = arr.acquire_and_init(|| 2).unwrap();
    let idx3 = arr.acquire_and_init(|| 3).unwrap();
    assert_ne!(idx1, idx2);
    assert_ne!(idx2, idx3);
    assert_ne!(idx1, idx3);
    assert_eq!(arr.acquire_and_init(|| 4), None);

    arr.dec_count(idx2);
    assert_eq!(arr.acquire_and_init(|| 5), Some(idx2));
    assert_eq!(*arr.get_ref(idx2), 5);
    assert_eq!(*arr.get_ref(idx1), 1);
    assert_eq!(*arr.get_ref(idx3), 3);
    assert_eq!(arr.acquire_and_init(|| 6), None);
}

#[test]
fn every_slot_of_a_full_table_can_be_reused() {
    for freed in 0..4 {
        let mut arr = UnsafeArcArray::<4, usize>::new();
        for value in 0..4 {
            assert_eq!(arr.acquire_and_init(|| value), Some(value));
        }
        assert_eq!(arr.acquire_and_init(|| 9), None);
        arr.dec_count(freed);
        assert_eq!(arr.acquire_and_init(|| 10 + freed), Some(freed));
        assert_eq!(*arr.get_ref(freed), 10 + freed);
    }
}

#[test]
fn lowest_free_slot_is_taken_first() {
    let mut arr = UnsafeArcArray::<4, i64>::new();
    for value in 0..4 {
        arr.acquire_and_init(|| value).unwrap();
    }
    arr.dec_count(3);
    arr.dec_count(1);
    assert_eq!(arr.acquire_and_init(|| 7), Some(1));
    assert_eq!(arr.acquire_and_init(|| 8), Some(3));
    assert_eq!(arr.acquire_and_init(|| 9), None);
}

#[test]
fn table_without_slots_is_always_full() {
    let mut arr = UnsafeArcArray::<0, i64>::new();
    assert_eq!(arr.acquire_and_init(|| 1), None);
}

#[test]
fn value_is_dropped_once_by_the_last_release() {
    let drops = Rc::new(Cell::new(0));
    let mut arr = UnsafeArcArray::<2, DropCount>::new();
    let value = DropCount {
        drops: drops.clone(),
    };
    let idx = arr.acquire_and_init(|| value).unwrap();
    arr.inc_count(idx);
    arr.inc_count(idx);
    assert_eq!(drops.get(), 0);
    arr.dec_count(idx);
    assert_eq!(drops.get(), 0);
    arr.inc_count(idx);
    arr.dec_count(idx);
    assert_eq!(drops.get(), 0);
    arr.dec_count(idx);
    assert_eq!(drops.get(), 0);
    arr.dec_count(idx);
    assert_eq!(drops.get(), 1);

    let again = arr.acquire_and_init(|| DropCount {
        drops: drops.clone(),
    });
    assert_eq!(again, Some(idx));
    assert_eq!(drops.get(), 1);
}

#[test]
fn live_value_is_readable_until_the_last_release() {
    let mut arr = UnsafeArcArray::<2, String>::new();
    let idx = arr.acquire_and_init(|| String::from("kept")).unwrap();
    arr.inc_count(idx);
    assert_eq!(arr.get_ref(idx), "kept");
    arr.dec_count(idx);
    assert_eq!(arr.get_ref(idx), "kept");
}

#[test]
fn sentinel_is_written_once_by_the_matching_release() {
    let mut arr = UnsafeArcArray::<1, DropSet>::new();
    let (ds, cell) = DropSet::new(11);
    let idx = arr.acquire_and_init(|| ds).unwrap();
    assert_eq!(cell.get(), 0);
    arr.dec_count(idx);
    assert_eq!(cell.get(), 11);

    cell.set(0);
    let (other, other_cell) = DropSet::new(12);
    assert_eq!(arr.acquire_and_init(|| other), Some(idx));
    assert_eq!(cell.get(), 0);
    assert_eq!(other_cell.get(), 0);
}

#[test]
fn loser_of_the_last_slot_never_runs_its_initializer() {
    let mut arr = UnsafeArcArray::<1, i64>::new();
    let ran = Cell::new(0);
    let first = arr.acquire_and_init(|| {
        ran.set(ran.get() + 1);
        1
    });
    let second = arr.acquire_and_init(|| {
        ran.set(ran.get() + 10);
        2
    });
    assert_eq!(first, Some(0));
    assert_eq!(second, None);
    assert_eq!(ran.get(), 1);
    assert_eq!(*arr.get_ref(0), 1);
}

#[test]
fn slots_do_not_share_counts() {
    let mut arr = UnsafeArcArray::<2, i64>::new();
    let a = arr.acquire_and_init(|| 1).unwrap();
    let b = arr.acquire_and_init(|| 2).unwrap();
    arr.inc_count(a);
    arr.dec_count(b);
    assert_eq!(*arr.get_ref(a), 1);
    assert_eq!(arr.acquire_and_init(|| 3), Some(b));
    arr.dec_count(a);
    assert_eq!(*arr.get_ref(a), 1);
    arr.dec_count(a);
    assert_eq!(arr.acquire_and_init(|| 4), Some(a));
}

#[test]
fn counts_follow_increments_and_decrements() {
    let mut arr = UnsafeArcArray::<2, i64>::new();
    assert_eq!(arr.ref_count(0), 0);
    assert_eq!(arr.ref_count(1), 0);
    let idx = arr.acquire_and_init(|| 7).unwrap();
    assert_eq!(arr.ref_count(idx), 1);
    arr.inc_count(idx);
    arr.inc_count(idx);
    assert_eq!(arr.ref_count(idx), 3);
    arr.dec_count(idx);
    assert_eq!(arr.ref_count(idx), 2);
    assert_eq!(arr.ref_count(1), 0);
    arr.dec_count(idx);
    arr.dec_count(idx);
    assert_eq!(arr.ref_count(idx), 0);
}

#[test]
fn refused_acquisition_changes_nothing() {
    let mut arr = UnsafeArcArray::<2, i64>::new();
    arr.acquire_and_init(|| 1).unwrap();
    arr.acquire_and_init(|| 2).unwrap();
    arr.inc_count(1);
    assert_eq!(arr.acquire_and_init(|| 3), None);
    assert_eq!(arr.ref_count(0), 1);
    assert_eq!(arr.ref_count(1), 2);
    assert_eq!(*arr.get_ref(0), 1);
    assert_eq!(*arr.get_ref(1), 2);
}
