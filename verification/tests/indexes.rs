//! The index of a partition and what it evicts.

use lanzatool::identifier::Identifier;
use lanzatool::index::{InstalledIndex, Record, Slot};
use lanzatool::retention::RetentionPolicy;

fn evictions(index: &InstalledIndex, configured: usize) -> Vec<Identifier> {
    RetentionPolicy::new(configured).evictions(index)
}

fn id(version: u64) -> Identifier {
    Identifier { version, digest: 0x1000 + version }
}

fn fill(index: &mut InstalledIndex, id: Identifier) {
    index.record(id, Slot::Kernel);
    index.record(id, Slot::Initrd);
    index.record(id, Slot::Stub);
    index.record(id, Slot::Entry);
}

fn full(id: Identifier) -> Record {
    Record { id, entry: true, stub: true, kernel: true, initrd: true }
}

#[test]
fn a_new_index_holds_nothing() {
    let index = InstalledIndex::new();
    assert_eq!(index.len(), 0);
    assert_eq!(index.complete_sets(), 0);
    assert_eq!(index.get(0), None);
    assert!(!index.holds(id(1), Slot::Stub));
    assert!(!index.is_complete(id(1)));
    assert_eq!(index.lookup(id(1)), Record::empty(id(1)));
    assert!(evictions(&index, 1).is_empty());
}

#[test]
fn files_are_noted_one_by_one() {
    let mut index = InstalledIndex::new();
    index.record(id(1), Slot::Kernel);
    assert!(index.holds(id(1), Slot::Kernel));
    assert!(!index.holds(id(1), Slot::Initrd));
    assert!(!index.holds(id(2), Slot::Kernel));
    assert!(!index.is_complete(id(1)));
    index.record(id(1), Slot::Initrd);
    index.record(id(1), Slot::Stub);
    assert!(index.is_complete(id(1)));
    assert!(!index.holds(id(1), Slot::Entry));
    index.record(id(1), Slot::Entry);
    assert_eq!(index.lookup(id(1)), full(id(1)));
    assert_eq!(index.len(), 1);
    // Noting a file twice changes nothing.
    index.record(id(1), Slot::Entry);
    assert_eq!(index.lookup(id(1)), full(id(1)));
    assert_eq!(index.len(), 1);
}

#[test]
fn the_records_stand_in_ranking_order() {
    let mut index = InstalledIndex::new();
    for version in [2u64, 5, 1, 4, 3] {
        fill(&mut index, id(version));
    }
    let same_version = Identifier { version: 3, digest: 0 };
    index.record(same_version, Slot::Kernel);
    let versions: Vec<(u64, u64)> = (0..index.len())
        .map(|place| index.get(place).unwrap().id)
        .map(|id| (id.version, id.digest))
        .collect();
    assert_eq!(
        versions,
        vec![(5, 0x1005), (4, 0x1004), (3, 0x1003), (3, 0), (2, 0x1002), (1, 0x1001)]
    );
    assert_eq!(index.get(6), None);
}

#[test]
fn a_record_without_files_leaves_the_index() {
    let mut index = InstalledIndex::new();
    fill(&mut index, id(1));
    fill(&mut index, id(2));
    index.forget(id(1), Slot::Entry);
    assert_eq!(
        index.lookup(id(1)),
        Record { id: id(1), entry: false, stub: true, kernel: true, initrd: true }
    );
    index.forget(id(1), Slot::Stub);
    index.forget(id(1), Slot::Kernel);
    assert_eq!(index.len(), 2);
    index.forget(id(1), Slot::Initrd);
    assert_eq!(index.len(), 1);
    assert_eq!(index.lookup(id(1)), Record::empty(id(1)));
    assert_eq!(index.lookup(id(2)), full(id(2)));
    // Forgetting what is not there changes nothing.
    index.forget(id(1), Slot::Initrd);
    index.forget(id(7), Slot::Stub);
    assert_eq!(index.len(), 1);
}

#[test]
fn the_sets_beyond_the_limit_are_evicted() {
    let mut index = InstalledIndex::new();
    for version in [1u64, 2, 3, 4] {
        fill(&mut index, id(version));
    }
    assert_eq!(index.complete_sets(), 4);
    assert_eq!(evictions(&index, 1), vec![id(3), id(2), id(1)]);
    assert_eq!(evictions(&index, 2), vec![id(2), id(1)]);
    assert_eq!(evictions(&index, 3), vec![id(1)]);
    assert_eq!(evictions(&index, 4), Vec::<Identifier>::new());
    assert_eq!(evictions(&index, 5), Vec::<Identifier>::new());
    assert_eq!(evictions(&index, usize::MAX), Vec::<Identifier>::new());
    // Zero stands for no limit.
    assert_eq!(evictions(&index, 0), Vec::<Identifier>::new());
}

#[test]
fn a_set_that_is_not_fully_present_is_evicted_and_does_not_count() {
    let mut index = InstalledIndex::new();
    for version in [1u64, 2, 3, 4] {
        fill(&mut index, id(version));
    }
    index.forget(id(4), Slot::Initrd);
    index.record(id(9), Slot::Entry);
    // A set without its loader entry is still a set.
    index.forget(id(3), Slot::Entry);
    assert_eq!(index.complete_sets(), 3);
    assert_eq!(index.len(), 5);
    assert_eq!(evictions(&index, 2), vec![id(9), id(4), id(1)]);
    assert_eq!(evictions(&index, 0), vec![id(9), id(4)]);
}

#[test]
fn records_tell_their_files() {
    let record = Record::empty(id(1)).mark(Slot::Stub).mark(Slot::Kernel);
    assert!(record.contains(Slot::Stub));
    assert!(record.contains(Slot::Kernel));
    assert!(!record.contains(Slot::Initrd));
    assert!(!record.contains(Slot::Entry));
    assert!(!record.is_complete());
    assert!(record.mark(Slot::Initrd).is_complete());
    assert!(!record.is_empty());
    assert!(record.clear(Slot::Stub).clear(Slot::Kernel).is_empty());
    assert_eq!(record.clear(Slot::Entry), record);
    assert!(Record::empty(id(1)).is_empty());
}

#[test]
fn a_policy_keeps_at_least_one_set() {
    assert_eq!(RetentionPolicy::new(1).limit(), 1);
    assert_eq!(RetentionPolicy::new(7).limit(), 7);
    assert_eq!(RetentionPolicy::new(0).limit(), usize::MAX);
    assert_eq!(RetentionPolicy::new(0), RetentionPolicy::new(usize::MAX));
    assert_ne!(RetentionPolicy::new(1), RetentionPolicy::new(2));
}
