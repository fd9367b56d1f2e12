use page_cache::definitions::{PageId, PageState, PoolError, TableId};
use page_cache::page_table::{PageTable, PageTableEntry, PageTableItem};

fn key(table: &str, page: usize) -> (TableId, PageId) {
    (TableId(String::from(table)), PageId(page))
}

#[test]
fn new_table_caches_nothing() {
    let table = PageTable::new(4);
    assert!(table.has_free_frame());
    assert_eq!(table.lookup(&key("Person", 0)), None);
    assert!(!table.contains(&key("Person", 0)));
    assert_eq!(table.get_item(&key("Person", 0)), None);
    assert!(table.find_victim().is_none());
}

#[test]
fn free_frames_are_handed_out_in_index_order() {
    let mut table = PageTable::new(3);
    assert_eq!(table.find_free_frame(), Some(0));
    assert_eq!(table.find_free_frame(), Some(1));
    assert_eq!(table.find_free_frame(), Some(2));
    assert_eq!(table.find_free_frame(), None);
    assert!(!table.has_free_frame());
    assert_eq!(table.find_free_frame(), None);
}

#[test]
fn released_frame_is_handed_out_next() {
    let mut table = PageTable::new(3);
    assert_eq!(table.find_free_frame(), Some(0));
    assert_eq!(table.find_free_frame(), Some(1));
    table.release_frame(0);
    assert!(table.has_free_frame());
    assert_eq!(table.find_free_frame(), Some(0));
    assert_eq!(table.find_free_frame(), Some(2));
    table.release_frame(1);
    table.release_frame(2);
    assert_eq!(table.find_free_frame(), Some(2));
    assert_eq!(table.find_free_frame(), Some(1));
    assert_eq!(table.find_free_frame(), None);
}

#[test]
fn inserted_page_is_found_with_a_fresh_entry() {
    let mut table = PageTable::new(2);
    let frame = table.find_free_frame().unwrap();
    table.insert(key("Person", 7), frame);
    assert_eq!(table.lookup(&key("Person", 7)), Some(0));
    assert!(table.contains(&key("Person", 7)));
    assert_eq!(
        table.get_item(&key("Person", 7)),
        Some(PageTableEntry {
            frame_index: 0,
            pin_count: 0,
            access_count: 0,
            state: PageState::Clean,
            readers: 0,
        })
    );
    assert_eq!(table.lookup(&key("Person", 8)), None);
    assert_eq!(table.lookup(&key("Persons", 7)), None);
    assert_eq!(table.lookup(&key("", 7)), None);
    assert!(!table.contains(&key("Order", 7)));
}

#[test]
fn keys_differ_by_table_and_by_page() {
    let mut table = PageTable::new(4);
    for (name, page) in [("A", 0), ("A", 1), ("B", 0), ("B", 1)] {
        let frame = table.find_free_frame().unwrap();
        table.insert(key(name, page), frame);
    }
    assert_eq!(table.lookup(&key("A", 0)), Some(0));
    assert_eq!(table.lookup(&key("A", 1)), Some(1));
    assert_eq!(table.lookup(&key("B", 0)), Some(2));
    assert_eq!(table.lookup(&key("B", 1)), Some(3));
}

#[test]
fn get_item_mut_changes_the_entry_in_place() {
    let mut table = PageTable::new(2);
    for page in 0..2 {
        let frame = table.find_free_frame().unwrap();
        table.insert(key("Person", page), frame);
    }
    let changed = PageTableEntry {
        frame_index: 1,
        pin_count: 3,
        access_count: 9,
        state: PageState::Dirty,
        readers: 2,
    };
    *table.get_item_mut(&key("Person", 1)).unwrap() = changed;
    assert_eq!(table.get_item(&key("Person", 1)), Some(changed));
    assert_eq!(table.get_item(&key("Person", 0)), Some(PageTableEntry::new(0)));
    table.get_item_mut(&key("Person", 0)).unwrap().pin_count = 1;
    assert_eq!(table.get_item(&key("Person", 0)).unwrap().pin_count, 1);
    assert_eq!(table.get_item(&key("Person", 1)), Some(changed));
    assert!(table.get_item_mut(&key("Person", 2)).is_none());
    assert!(table.get_item_mut(&key("Order", 0)).is_none());
}

#[test]
fn removed_page_frees_its_frame() {
    let mut table = PageTable::new(2);
    for page in 0..2 {
        let frame = table.find_free_frame().unwrap();
        table.insert(key("Person", page), frame);
    }
    assert!(!table.has_free_frame());
    assert_eq!(table.remove(&key("Person", 0)), Ok(0));
    assert_eq!(table.lookup(&key("Person", 0)), None);
    assert!(!table.contains(&key("Person", 0)));
    assert_eq!(table.lookup(&key("Person", 1)), Some(1));
    assert!(table.has_free_frame());
    assert_eq!(table.remove(&key("Person", 0)), Err(PoolError::NotResident));
    assert_eq!(table.find_free_frame(), Some(0));
    assert_eq!(table.find_free_frame(), None);
}

#[test]
fn pinned_or_read_page_is_not_removed() {
    let mut table = PageTable::new(2);
    let frame = table.find_free_frame().unwrap();
    table.insert(key("Person", 0), frame);
    let lock = table.get_read(key("Person", 0)).unwrap();
    assert_eq!(lock.id(), &key("Person", 0));
    assert_eq!(lock.frame_index(), 0);
    assert_eq!(table.remove(&key("Person", 0)), Err(PoolError::Busy));
    assert!(table.contains(&key("Person", 0)));
    assert_eq!(table.release_read(lock), Ok(()));
    table.get_item_mut(&key("Person", 0)).unwrap().pin_count = 1;
    assert_eq!(table.remove(&key("Person", 0)), Err(PoolError::Busy));
    table.get_item_mut(&key("Person", 0)).unwrap().pin_count = 0;
    assert_eq!(table.remove(&key("Person", 0)), Ok(0));
}

#[test]
fn read_locks_are_counted_and_count_as_accesses() {
    let mut table = PageTable::new(1);
    let frame = table.find_free_frame().unwrap();
    table.insert(key("Person", 0), frame);
    let first = table.get_read(key("Person", 0)).unwrap();
    let second = table.get_read(key("Person", 0)).unwrap();
    let entry = table.get_item(&key("Person", 0)).unwrap();
    assert_eq!(entry.readers, 2);
    assert_eq!(entry.access_count, 2);
    assert_eq!(table.release_read(first), Ok(()));
    assert_eq!(table.get_item(&key("Person", 0)).unwrap().readers, 1);
    assert_eq!(table.release_read(second), Ok(()));
    let entry = table.get_item(&key("Person", 0)).unwrap();
    assert_eq!(entry.readers, 0);
    assert_eq!(entry.access_count, 2);
    assert_eq!(table.get_read(key("Person", 1)).unwrap_err(), PoolError::NotResident);
}

#[test]
fn reader_count_does_not_overflow() {
    let mut table = PageTable::new(1);
    let frame = table.find_free_frame().unwrap();
    table.insert(key("Person", 0), frame);
    table.get_item_mut(&key("Person", 0)).unwrap().readers = usize::MAX;
    let full = table.get_item(&key("Person", 0));
    assert_eq!(table.get_read(key("Person", 0)).unwrap_err(), PoolError::Overflow);
    assert_eq!(table.get_item(&key("Person", 0)), full);
    assert_eq!(full.unwrap().access_count, 0);
}

#[test]
fn stale_read_lock_is_refused() {
    let mut table = PageTable::new(1);
    let mut other = PageTable::new(1);
    let frame = table.find_free_frame().unwrap();
    table.insert(key("Person", 0), frame);
    let frame = other.find_free_frame().unwrap();
    other.insert(key("Person", 0), frame);
    let lock = table.get_read(key("Person", 0)).unwrap();
    assert_eq!(other.release_read(lock), Err(PoolError::Underflow));
    let mut empty = PageTable::new(1);
    let lock = table.get_read(key("Person", 0)).unwrap();
    assert_eq!(empty.release_read(lock), Err(PoolError::NotResident));
}

#[test]
fn access_count_stays_at_the_largest_value() {
    let mut entry = PageTableEntry::new(3);
    entry.record_access();
    assert_eq!(entry.access_count, 1);
    entry.access_count = usize::MAX - 1;
    entry.record_access();
    assert_eq!(entry.access_count, usize::MAX);
    entry.record_access();
    assert_eq!(entry.access_count, usize::MAX);
    assert_eq!(entry.frame_index, 3);
}

#[test]
fn victim_is_least_accessed_unpinned_page() {
    let mut table = PageTable::new(4);
    for page in 0..4 {
        let frame = table.find_free_frame().unwrap();
        table.insert(key("Person", page), frame);
    }
    assert_eq!(table.find_victim(), Some(key("Person", 0)));
    let counts = [5usize, 2, 7, 2];
    for page in 0..4 {
        table.get_item_mut(&key("Person", page)).unwrap().access_count = counts[page];
    }
    assert_eq!(table.find_victim(), Some(key("Person", 1)));
    table.get_item_mut(&key("Person", 1)).unwrap().pin_count = 1;
    assert_eq!(table.find_victim(), Some(key("Person", 3)));
    for page in [0usize, 2, 3] {
        table.get_item_mut(&key("Person", page)).unwrap().pin_count = 2;
    }
    assert_eq!(table.find_victim(), None);
}

#[test]
fn victim_ignores_free_frames() {
    let mut table = PageTable::new(3);
    for page in 0..3 {
        let frame = table.find_free_frame().unwrap();
        table.insert(key("Person", page), frame);
    }
    table.get_item_mut(&key("Person", 2)).unwrap().access_count = 4;
    assert_eq!(table.remove(&key("Person", 0)), Ok(0));
    assert_eq!(table.remove(&key("Person", 1)), Ok(1));
    assert_eq!(table.find_victim(), Some(key("Person", 2)));
}

#[test]
fn page_table_items_are_built_as_named() {
    assert!(matches!(
        PageTableItem::new_free(Some(3)),
        PageTableItem::Free { next_free_index: Some(3) }
    ));
    assert!(matches!(PageTableItem::new_free(None), PageTableItem::Free { next_free_index: None }));
    match PageTableItem::new_occupied(key("Person", 1), 2) {
        PageTableItem::Occupied { id, entry } => {
            assert_eq!(id, key("Person", 1));
            assert_eq!(entry, PageTableEntry::new(2));
        }
        PageTableItem::Free { .. } => panic!("an occupied item was asked for"),
    }
    match PageTableItem::new(key("Order", 3), 5) {
        PageTableItem::Occupied { id, entry } => {
            assert_eq!(id, key("Order", 3));
            assert_eq!(entry, PageTableEntry::new(5));
            assert_eq!(entry.frame_index, 5);
            assert_eq!(entry.state, PageState::Clean);
        }
        PageTableItem::Free { .. } => panic!("an occupied item was asked for"),
    }
}
