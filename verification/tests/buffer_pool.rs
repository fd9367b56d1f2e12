use std::cell::{Cell, RefCell};
use std::collections::HashMap;

use page_cache::buffer_pool::{BufferPoolImpl, LoadPlan};
use page_cache::contracts::{StorageError, StorageHandler};
use page_cache::definitions::{Page, PageId, PageState, PoolError, TableId};
use page_cache::page_table::PageTableEntry;

/// Storage that keeps pages in memory and records every write.
struct MemoryStorage {
    pages: RefCell<HashMap<(String, usize), Vec<u8>>>,
    writes: RefCell<Vec<(String, usize, Vec<u8>)>>,
    failing: Cell<bool>,
}

impl MemoryStorage {
    fn new() -> Self {
        MemoryStorage {
            pages: RefCell::new(HashMap::new()),
            writes: RefCell::new(Vec::new()),
            failing: Cell::new(false),
        }
    }

    fn put(&self, table: &str, page: usize, bytes: Vec<u8>) {
        self.pages.borrow_mut().insert((String::from(table), page), bytes);
    }

    fn held(&self, table: &str, page: usize) -> Option<Vec<u8>> {
        self.pages.borrow().get(&(String::from(table), page)).cloned()
    }

    fn write_count(&self) -> usize {
        self.writes.borrow().len()
    }
}

impl StorageHandler for MemoryStorage {
    fn read_page(&self, table_id: TableId, page_id: PageId) -> Result<Vec<u8>, StorageError> {
        if self.failing.get() {
            return Err(StorageError::IoError);
        }
        match self.pages.borrow().get(&(table_id.0, page_id.0)) {
            Some(bytes) => Ok(bytes.clone()),
            None => Err(StorageError::NotFound),
        }
    }

    fn write_page(&self, table_id: TableId, page_id: PageId, page: Page<'_>) -> Result<(), StorageError> {
        if self.failing.get() {
            return Err(StorageError::IoError);
        }
        let mut bytes = Vec::new();
        let mut cursor = page.iter();
        while let Some(byte) = cursor.next() {
            bytes.push(byte);
        }
        assert_eq!(bytes.len(), page.size);
        self.writes.borrow_mut().push((table_id.0.clone(), page_id.0, bytes.clone()));
        self.pages.borrow_mut().insert((table_id.0, page_id.0), bytes);
        Ok(())
    }
}

fn key(table: &str, page: usize) -> (TableId, PageId) {
    (TableId(String::from(table)), PageId(page))
}

fn read(pool: &mut BufferPoolImpl, table: &str, page: usize) -> Vec<u8> {
    let lock = pool.get_page(key(table, page)).unwrap();
    let bytes = lock.data().to_vec();
    assert_eq!(pool.release_page(lock), Ok(()));
    bytes
}

#[test]
fn new_pool_caches_nothing() {
    let mut pool = BufferPoolImpl::new(16, 8);
    assert_eq!(pool.page_size(), 16);
    assert_eq!(pool.entries_count(), 8);
    assert!(!pool.contains_page(key("Person", 0)));
    assert_eq!(pool.page_entry(&key("Person", 0)), None);
    assert_eq!(pool.get_page(key("Person", 0)).unwrap_err(), PoolError::NotResident);
    assert_eq!(pool.mutate_page(key("Person", 0), 0, vec![1]), Err(PoolError::NotResident));
    assert_eq!(pool.set_pinned(key("Person", 0), true), Err(PoolError::NotResident));
    assert_eq!(pool.set_pinned(key("Person", 0), false), Err(PoolError::NotResident));
    let storage = MemoryStorage::new();
    assert_eq!(pool.remove_page(&storage, &key("Person", 0)), Err(PoolError::NotResident));
}

#[test]
fn loaded_page_is_read_back() {
    let storage = MemoryStorage::new();
    let mut pool = BufferPoolImpl::new(4, 2);
    assert_eq!(pool.get_page(key("Person", 3)).unwrap_err(), PoolError::NotResident);
    assert_eq!(pool.load_page(&storage, key("Person", 3), vec![1, 2, 3, 4]), Ok(()));
    assert!(pool.contains_page(key("Person", 3)));
    let lock = pool.get_page(key("Person", 3)).unwrap();
    assert_eq!(lock.data(), &[1, 2, 3, 4]);
    assert_eq!(lock.id(), &key("Person", 3));
    assert_eq!(pool.release_page(lock), Ok(()));
    assert_eq!(pool.get_page(key("Person", 4)).unwrap_err(), PoolError::NotResident);
    assert_eq!(pool.get_page(key("Order", 3)).unwrap_err(), PoolError::NotResident);
}

#[test]
fn read_lock_shows_its_page() {
    let storage = MemoryStorage::new();
    let mut pool = BufferPoolImpl::new(3, 1);
    assert_eq!(pool.load_page(&storage, key("Person", 0), vec![4, 5, 6]), Ok(()));
    let lock = pool.get_page(key("Person", 0)).unwrap();
    let page = lock.page();
    assert_eq!(page.size, 3);
    assert_eq!(page.index(0), Some(4));
    assert_eq!(page.index(2), Some(6));
    assert_eq!(page.index(3), None);
    let mut cursor = page.iter();
    assert_eq!(cursor.next(), Some(4));
    assert_eq!(cursor.len(), 2);
    assert_eq!(pool.release_page(lock), Ok(()));
}

#[test]
fn loaded_page_has_a_fresh_entry() {
    let storage = MemoryStorage::new();
    let mut pool = BufferPoolImpl::new(2, 3);
    assert_eq!(pool.load_page(&storage, key("Person", 0), vec![1, 2]), Ok(()));
    assert_eq!(pool.load_page(&storage, key("Person", 1), vec![3, 4]), Ok(()));
    assert_eq!(pool.page_entry(&key("Person", 0)), Some(PageTableEntry::new(0)));
    assert_eq!(pool.page_entry(&key("Person", 1)), Some(PageTableEntry::new(1)));
    assert_eq!(pool.page_entry(&key("Person", 2)), None);
}

#[test]
fn load_page_wants_a_whole_page() {
    let storage = MemoryStorage::new();
    let mut pool = BufferPoolImpl::new(4, 2);
    assert_eq!(pool.load_page(&storage, key("Person", 0), vec![1, 2, 3]), Err(PoolError::OutOfRange));
    assert_eq!(pool.load_page(&storage, key("Person", 0), vec![1, 2, 3, 4, 5]), Err(PoolError::OutOfRange));
    assert_eq!(pool.load_page(&storage, key("Person", 0), vec![]), Err(PoolError::OutOfRange));
    assert!(!pool.contains_page(key("Person", 0)));
    assert_eq!(pool.load_page(&storage, key("Person", 0), vec![1, 2, 3, 4]), Ok(()));
    assert_eq!(pool.load_page(&storage, key("Person", 0), vec![9]), Err(PoolError::OutOfRange));
    assert_eq!(read(&mut pool, "Person", 0), vec![1, 2, 3, 4]);
}

#[test]
fn get_page_counts_readers_and_accesses() {
    let storage = MemoryStorage::new();
    let mut pool = BufferPoolImpl::new(2, 2);
    assert_eq!(pool.load_page(&storage, key("Person", 0), vec![1, 2]), Ok(()));
    let first = pool.get_page(key("Person", 0)).unwrap();
    let second = pool.get_page(key("Person", 0)).unwrap();
    let entry = pool.page_entry(&key("Person", 0)).unwrap();
    assert_eq!(entry.readers, 2);
    assert_eq!(entry.access_count, 2);
    assert_eq!(entry.pin_count, 0);
    assert_eq!(entry.state, PageState::Clean);
    assert_eq!(pool.release_page(first), Ok(()));
    assert_eq!(pool.page_entry(&key("Person", 0)).unwrap().readers, 1);
    assert_eq!(pool.release_page(second), Ok(()));
    let entry = pool.page_entry(&key("Person", 0)).unwrap();
    assert_eq!(entry.readers, 0);
    assert_eq!(entry.access_count, 2);
}

#[test]
fn lock_of_another_pool_is_refused() {
    let storage = MemoryStorage::new();
    let mut pool = BufferPoolImpl::new(2, 2);
    let mut other = BufferPoolImpl::new(2, 2);
    assert_eq!(pool.load_page(&storage, key("Person", 0), vec![1, 2]), Ok(()));
    assert_eq!(other.load_page(&storage, key("Person", 0), vec![1, 2]), Ok(()));
    let lock = pool.get_page(key("Person", 0)).unwrap();
    assert_eq!(other.release_page(lock), Err(PoolError::Underflow));
    let lock = pool.get_page(key("Person", 0)).unwrap();
    let mut empty = BufferPoolImpl::new(2, 2);
    assert_eq!(empty.release_page(lock), Err(PoolError::NotResident));
    assert_eq!(other.page_entry(&key("Person", 0)), Some(PageTableEntry::new(0)));
}

#[test]
fn mutation_is_read_back_and_marks_dirty() {
    let storage = MemoryStorage::new();
    let mut pool = BufferPoolImpl::new(8, 2);
    assert_eq!(pool.load_page(&storage, key("Person", 0), vec![0xFA; 8]), Ok(()));
    assert_eq!(pool.load_page(&storage, key("Person", 4), vec![0x23; 8]), Ok(()));
    assert_eq!(pool.mutate_page(key("Person", 4), 2, vec![1, 2, 3]), Ok(()));
    assert_eq!(read(&mut pool, "Person", 4), vec![0x23, 0x23, 1, 2, 3, 0x23, 0x23, 0x23]);
    assert_eq!(read(&mut pool, "Person", 0), vec![0xFA; 8]);
    let entry = pool.page_entry(&key("Person", 4)).unwrap();
    assert_eq!(entry.state, PageState::Dirty);
    assert_eq!(entry.access_count, 2);
    assert_eq!(pool.page_entry(&key("Person", 0)).unwrap().state, PageState::Clean);
}

#[test]
fn mutation_need_not_start_at_the_page_boundary() {
    let storage = MemoryStorage::new();
    let mut pool = BufferPoolImpl::new(4, 1);
    assert_eq!(pool.load_page(&storage, key("Person", 0), vec![0; 4]), Ok(()));
    assert_eq!(pool.mutate_page(key("Person", 0), 3, vec![7]), Ok(()));
    assert_eq!(pool.mutate_page(key("Person", 0), 1, vec![5, 6]), Ok(()));
    assert_eq!(pool.mutate_page(key("Person", 0), 0, vec![]), Ok(()));
    assert_eq!(pool.mutate_page(key("Person", 0), 4, vec![]), Ok(()));
    assert_eq!(read(&mut pool, "Person", 0), vec![0, 5, 6, 7]);
    assert_eq!(pool.mutate_page(key("Person", 0), 0, vec![1, 2, 3, 4]), Ok(()));
    assert_eq!(read(&mut pool, "Person", 0), vec![1, 2, 3, 4]);
    assert_eq!(pool.page_entry(&key("Person", 0)).unwrap().access_count, 7);
}

#[test]
fn mutation_out_of_range_leaves_the_frame_unchanged() {
    let storage = MemoryStorage::new();
    let mut pool = BufferPoolImpl::new(4, 2);
    assert_eq!(pool.load_page(&storage, key("Person", 0), vec![1, 2, 3, 4]), Ok(()));
    assert_eq!(pool.mutate_page(key("Person", 0), 3, vec![9, 9]), Err(PoolError::OutOfRange));
    assert_eq!(pool.mutate_page(key("Person", 0), 0, vec![9; 5]), Err(PoolError::OutOfRange));
    assert_eq!(pool.mutate_page(key("Person", 0), 5, vec![]), Err(PoolError::OutOfRange));
    assert_eq!(pool.mutate_page(key("Person", 0), usize::MAX, vec![9]), Err(PoolError::OutOfRange));
    assert_eq!(pool.mutate_page(key("Person", 1), 4, vec![9]), Err(PoolError::OutOfRange));
    assert_eq!(pool.page_entry(&key("Person", 0)), Some(PageTableEntry::new(0)));
    assert_eq!(read(&mut pool, "Person", 0), vec![1, 2, 3, 4]);
}

#[test]
fn pin_and_unpin_are_counted() {
    let storage = MemoryStorage::new();
    let mut pool = BufferPoolImpl::new(2, 2);
    assert_eq!(pool.load_page(&storage, key("Person", 0), vec![1, 2]), Ok(()));
    for expected in 1..=5usize {
        assert_eq!(pool.set_pinned(key("Person", 0), true), Ok(()));
        assert_eq!(pool.page_entry(&key("Person", 0)).unwrap().pin_count, expected);
    }
    for expected in (0..5usize).rev() {
        assert_eq!(pool.set_pinned(key("Person", 0), false), Ok(()));
        assert_eq!(pool.page_entry(&key("Person", 0)).unwrap().pin_count, expected);
    }
    assert_eq!(pool.set_pinned(key("Person", 0), false), Err(PoolError::Underflow));
    assert_eq!(pool.page_entry(&key("Person", 0)), Some(PageTableEntry::new(0)));
}

#[test]
fn unpin_of_unpinned_page_underflows() {
    let storage = MemoryStorage::new();
    let mut pool = BufferPoolImpl::new(2, 2);
    assert_eq!(pool.load_page(&storage, key("Person", 0), vec![1, 2]), Ok(()));
    assert_eq!(pool.set_pinned(key("Person", 0), false), Err(PoolError::Underflow));
    assert_eq!(pool.page_entry(&key("Person", 0)).unwrap().pin_count, 0);
}

#[test]
fn ninth_page_evicts_the_first_of_eight() {
    let storage = MemoryStorage::new();
    let mut pool = BufferPoolImpl::new(16, 8);
    for page in 0..9usize {
        assert_eq!(pool.load_page(&storage, key("Person", page), vec![page as u8; 16]), Ok(()));
    }
    assert!(!pool.contains_page(key("Person", 0)));
    for page in 1..9usize {
        assert!(pool.contains_page(key("Person", page)));
        assert_eq!(read(&mut pool, "Person", page), vec![page as u8; 16]);
    }
    assert_eq!(pool.page_entry(&key("Person", 8)).unwrap().frame_index, 0);
    assert_eq!(storage.write_count(), 0);
}

#[test]
fn eviction_takes_the_least_accessed_page() {
    let storage = MemoryStorage::new();
    let mut pool = BufferPoolImpl::new(2, 3);
    for page in 0..3usize {
        assert_eq!(pool.load_page(&storage, key("Person", page), vec![page as u8; 2]), Ok(()));
    }
    read(&mut pool, "Person", 0);
    read(&mut pool, "Person", 0);
    read(&mut pool, "Person", 2);
    assert_eq!(pool.load_page(&storage, key("Person", 3), vec![3, 3]), Ok(()));
    assert!(pool.contains_page(key("Person", 0)));
    assert!(!pool.contains_page(key("Person", 1)));
    assert!(pool.contains_page(key("Person", 2)));
    assert_eq!(pool.page_entry(&key("Person", 3)), Some(PageTableEntry::new(1)));
    assert_eq!(pool.load_page(&storage, key("Person", 4), vec![4, 4]), Ok(()));
    assert!(!pool.contains_page(key("Person", 3)));
    assert_eq!(pool.page_entry(&key("Person", 4)), Some(PageTableEntry::new(1)));
    read(&mut pool, "Person", 4);
    read(&mut pool, "Person", 4);
    assert_eq!(pool.load_page(&storage, key("Person", 5), vec![5, 5]), Ok(()));
    assert!(!pool.contains_page(key("Person", 2)));
    assert_eq!(pool.page_entry(&key("Person", 5)), Some(PageTableEntry::new(2)));
}

#[test]
fn eviction_breaks_ties_by_lowest_frame() {
    let storage = MemoryStorage::new();
    let mut pool = BufferPoolImpl::new(1, 3);
    for page in 0..3usize {
        assert_eq!(pool.load_page(&storage, key("Person", page), vec![0]), Ok(()));
    }
    read(&mut pool, "Person", 0);
    assert_eq!(pool.load_page(&storage, key("Person", 3), vec![0]), Ok(()));
    assert!(!pool.contains_page(key("Person", 1)));
    assert!(pool.contains_page(key("Person", 2)));
    assert_eq!(pool.page_entry(&key("Person", 3)).unwrap().frame_index, 1);
}

#[test]
fn eviction_never_takes_a_pinned_page() {
    let storage = MemoryStorage::new();
    let mut pool = BufferPoolImpl::new(2, 2);
    assert_eq!(pool.load_page(&storage, key("Person", 0), vec![1, 1]), Ok(()));
    assert_eq!(pool.load_page(&storage, key("Person", 1), vec![2, 2]), Ok(()));
    assert_eq!(pool.set_pinned(key("Person", 0), true), Ok(()));
    read(&mut pool, "Person", 1);
    read(&mut pool, "Person", 1);
    assert_eq!(pool.load_page(&storage, key("Person", 2), vec![3, 3]), Ok(()));
    assert!(pool.contains_page(key("Person", 0)));
    assert!(!pool.contains_page(key("Person", 1)));
    assert_eq!(read(&mut pool, "Person", 0), vec![1, 1]);
    assert_eq!(pool.page_entry(&key("Person", 0)).unwrap().frame_index, 0);
}

#[test]
fn fully_pinned_pool_is_exhausted() {
    let storage = MemoryStorage::new();
    let mut pool = BufferPoolImpl::new(2, 2);
    for page in 0..2usize {
        assert_eq!(pool.load_page(&storage, key("Person", page), vec![page as u8; 2]), Ok(()));
        assert_eq!(pool.set_pinned(key("Person", page), true), Ok(()));
    }
    assert_eq!(pool.load_page(&storage, key("Person", 2), vec![9, 9]), Err(PoolError::PoolExhausted));
    assert!(!pool.contains_page(key("Person", 2)));
    assert_eq!(read(&mut pool, "Person", 0), vec![0, 0]);
    assert_eq!(read(&mut pool, "Person", 1), vec![1, 1]);
    assert_eq!(pool.set_pinned(key("Person", 1), false), Ok(()));
    assert_eq!(pool.load_page(&storage, key("Person", 2), vec![9, 9]), Ok(()));
    assert!(!pool.contains_page(key("Person", 1)));
    assert_eq!(read(&mut pool, "Person", 2), vec![9, 9]);
}

#[test]
fn load_of_cached_page_overwrites_in_place() {
    let storage = MemoryStorage::new();
    let mut pool = BufferPoolImpl::new(2, 2);
    assert_eq!(pool.load_page(&storage, key("Person", 0), vec![1, 1]), Ok(()));
    assert_eq!(pool.load_page(&storage, key("Person", 1), vec![2, 2]), Ok(()));
    assert_eq!(pool.set_pinned(key("Person", 1), true), Ok(()));
    assert_eq!(pool.mutate_page(key("Person", 1), 0, vec![5]), Ok(()));
    assert_eq!(pool.load_page(&storage, key("Person", 1), vec![7, 8]), Ok(()));
    assert_eq!(
        pool.page_entry(&key("Person", 1)),
        Some(PageTableEntry {
            frame_index: 1,
            pin_count: 1,
            access_count: 2,
            state: PageState::Dirty,
            readers: 0,
        })
    );
    assert_eq!(read(&mut pool, "Person", 1), vec![7, 8]);
    assert_eq!(read(&mut pool, "Person", 0), vec![1, 1]);
    assert_eq!(pool.load_page(&storage, key("Person", 0), vec![3, 4]), Ok(()));
    assert_eq!(
        pool.page_entry(&key("Person", 0)),
        Some(PageTableEntry {
            frame_index: 0,
            pin_count: 0,
            access_count: 2,
            state: PageState::Clean,
            readers: 0,
        })
    );
    assert_eq!(storage.write_count(), 0);
}

#[test]
fn readers_keep_their_page() {
    let storage = MemoryStorage::new();
    let mut pool = BufferPoolImpl::new(2, 1);
    assert_eq!(pool.load_page(&storage, key("Person", 0), vec![1, 2]), Ok(()));
    let lock = pool.get_page(key("Person", 0)).unwrap();
    let before = pool.page_entry(&key("Person", 0));
    assert_eq!(pool.mutate_page(key("Person", 0), 0, vec![9]), Err(PoolError::Busy));
    assert_eq!(pool.load_page(&storage, key("Person", 0), vec![9, 9]), Err(PoolError::Busy));
    assert_eq!(pool.load_page(&storage, key("Person", 1), vec![9, 9]), Err(PoolError::Busy));
    assert_eq!(pool.remove_page(&storage, &key("Person", 0)), Err(PoolError::Busy));
    assert_eq!(pool.page_entry(&key("Person", 0)), before);
    assert_eq!(lock.data(), &[1, 2]);
    assert_eq!(pool.release_page(lock), Ok(()));
    assert_eq!(read(&mut pool, "Person", 0), vec![1, 2]);
    assert_eq!(pool.load_page(&storage, key("Person", 1), vec![9, 9]), Ok(()));
    assert!(!pool.contains_page(key("Person", 0)));
}

#[test]
fn buffer_pool_test() {
    let storage = MemoryStorage::new();
    let mut pool = BufferPoolImpl::new(8, 4);
    assert_eq!(pool.load_page(&storage, key("Person", 0), vec![0xFA; 8]), Ok(()));
    assert_eq!(pool.load_page(&storage, key("Person", 4), vec![0x23; 8]), Ok(()));

    let mut page0_locks = Vec::new();
    for _ in 0..25 {
        let lock = pool.get_page(key("Person", 0)).unwrap();
        assert_eq!(lock.data(), &[0xFA; 8]);
        page0_locks.push(lock);
    }
    assert_eq!(pool.page_entry(&key("Person", 0)).unwrap().readers, 25);

    let mut page4_locks = Vec::new();
    for _ in 0..25 {
        let lock = pool.get_page(key("Person", 4)).unwrap();
        assert_eq!(lock.data(), &[0x23; 8]);
        page4_locks.push(lock);
    }
    for lock in page4_locks {
        assert_eq!(pool.release_page(lock), Ok(()));
    }

    assert_eq!(pool.mutate_page(key("Person", 4), 0, vec![0x50; 8]), Ok(()));
    assert_eq!(read(&mut pool, "Person", 4), vec![0x50; 8]);
    assert_eq!(pool.page_entry(&key("Person", 0)).unwrap().readers, 25);

    assert_eq!(pool.mutate_page(key("Person", 0), 0, vec![0x05; 8]), Err(PoolError::Busy));
    for lock in page0_locks {
        assert_eq!(lock.data(), &[0xFA; 8]);
        assert_eq!(pool.release_page(lock), Ok(()));
    }
    assert_eq!(pool.mutate_page(key("Person", 0), 0, vec![0x05; 8]), Ok(()));
    assert_eq!(read(&mut pool, "Person", 0), vec![0x05; 8]);

    for _ in 0..25 {
        assert_eq!(pool.mutate_page(key("Person", 4), 0, vec![0xAA; 8]), Ok(()));
    }
    assert_eq!(read(&mut pool, "Person", 4), vec![0xAA; 8]);
    assert_eq!(read(&mut pool, "Person", 0), vec![0x05; 8]);
    let entry = pool.page_entry(&key("Person", 4)).unwrap();
    assert_eq!(entry.state, PageState::Dirty);
    assert_eq!(entry.access_count, 25 + 1 + 1 + 25 + 1);
}

#[test]
fn dirty_victim_is_written_back_before_eviction() {
    let storage = MemoryStorage::new();
    let mut pool = BufferPoolImpl::new(2, 1);
    assert_eq!(pool.load_page(&storage, key("Person", 0), vec![1, 2]), Ok(()));
    assert_eq!(pool.mutate_page(key("Person", 0), 1, vec![7]), Ok(()));
    assert_eq!(pool.load_page(&storage, key("Order", 5), vec![3, 4]), Ok(()));
    assert_eq!(*storage.writes.borrow(), vec![(String::from("Person"), 0usize, vec![1u8, 7])]);
    assert!(!pool.contains_page(key("Person", 0)));
    assert_eq!(read(&mut pool, "Order", 5), vec![3, 4]);
    assert_eq!(pool.load_page(&storage, key("Person", 1), vec![5, 6]), Ok(()));
    assert_eq!(storage.write_count(), 1);
}

#[test]
fn failed_write_back_keeps_the_victim() {
    let storage = MemoryStorage::new();
    let mut pool = BufferPoolImpl::new(2, 1);
    assert_eq!(pool.load_page(&storage, key("Person", 0), vec![1, 2]), Ok(()));
    assert_eq!(pool.mutate_page(key("Person", 0), 0, vec![9]), Ok(()));
    let before = pool.page_entry(&key("Person", 0));
    storage.failing.set(true);
    assert_eq!(pool.load_page(&storage, key("Person", 1), vec![3, 4]), Err(PoolError::IoFailure));
    assert_eq!(pool.remove_page(&storage, &key("Person", 0)), Err(PoolError::IoFailure));
    assert!(pool.contains_page(key("Person", 0)));
    assert!(!pool.contains_page(key("Person", 1)));
    assert_eq!(pool.page_entry(&key("Person", 0)), before);
    assert_eq!(before.unwrap().state, PageState::Dirty);
    assert_eq!(read(&mut pool, "Person", 0), vec![9, 2]);
    storage.failing.set(false);
    assert_eq!(pool.load_page(&storage, key("Person", 1), vec![3, 4]), Ok(()));
    assert_eq!(storage.held("Person", 0), Some(vec![9, 2]));
}

#[test]
fn clean_page_is_evicted_without_write_back() {
    let storage = MemoryStorage::new();
    storage.failing.set(true);
    let mut pool = BufferPoolImpl::new(2, 1);
    assert_eq!(pool.load_page(&storage, key("Person", 0), vec![1, 2]), Ok(()));
    assert_eq!(pool.load_page(&storage, key("Person", 1), vec![3, 4]), Ok(()));
    assert_eq!(pool.remove_page(&storage, &key("Person", 1)), Ok(()));
    assert_eq!(storage.write_count(), 0);
}

#[test]
fn removed_page_frees_its_frame_for_the_next_load() {
    let storage = MemoryStorage::new();
    let mut pool = BufferPoolImpl::new(2, 3);
    for page in 0..3usize {
        assert_eq!(pool.load_page(&storage, key("Person", page), vec![page as u8; 2]), Ok(()));
    }
    assert_eq!(pool.remove_page(&storage, &key("Person", 1)), Ok(()));
    assert!(!pool.contains_page(key("Person", 1)));
    assert_eq!(pool.remove_page(&storage, &key("Person", 1)), Err(PoolError::NotResident));
    assert_eq!(pool.load_page(&storage, key("Person", 7), vec![7, 7]), Ok(()));
    assert_eq!(pool.page_entry(&key("Person", 7)), Some(PageTableEntry::new(1)));
    assert!(pool.contains_page(key("Person", 0)));
    assert!(pool.contains_page(key("Person", 2)));
}

#[test]
fn pinned_page_is_not_removed() {
    let storage = MemoryStorage::new();
    let mut pool = BufferPoolImpl::new(2, 1);
    assert_eq!(pool.load_page(&storage, key("Person", 0), vec![1, 2]), Ok(()));
    assert_eq!(pool.set_pinned(key("Person", 0), true), Ok(()));
    assert_eq!(pool.remove_page(&storage, &key("Person", 0)), Err(PoolError::Busy));
    assert_eq!(pool.set_pinned(key("Person", 0), false), Ok(()));
    assert_eq!(pool.remove_page(&storage, &key("Person", 0)), Ok(()));
}

#[test]
fn round_trip_through_storage() {
    let storage = MemoryStorage::new();
    let mut pool = BufferPoolImpl::new(4, 2);
    storage.put("Person", 0, vec![1, 2, 3, 4]);
    assert_eq!(pool.load_page(&storage, key("Person", 0), vec![1, 2, 3, 4]), Ok(()));
    assert_eq!(pool.remove_page(&storage, &key("Person", 0)), Ok(()));
    let bytes = storage.read_page(TableId(String::from("Person")), PageId(0)).unwrap();
    assert_eq!(pool.load_page(&storage, key("Person", 0), bytes), Ok(()));
    assert_eq!(read(&mut pool, "Person", 0), vec![1, 2, 3, 4]);

    assert_eq!(pool.mutate_page(key("Person", 0), 1, vec![8, 9]), Ok(()));
    assert_eq!(pool.remove_page(&storage, &key("Person", 0)), Ok(()));
    assert_eq!(storage.held("Person", 0), Some(vec![1, 8, 9, 4]));
    let bytes = storage.read_page(TableId(String::from("Person")), PageId(0)).unwrap();
    assert_eq!(pool.load_page(&storage, key("Person", 0), bytes), Ok(()));
    assert_eq!(read(&mut pool, "Person", 0), vec![1, 8, 9, 4]);
    assert_eq!(pool.page_entry(&key("Person", 0)).unwrap().state, PageState::Clean);
}

#[test]
fn fetch_page_reads_a_miss_from_storage() {
    let storage = MemoryStorage::new();
    storage.put("Person", 0, vec![1, 2]);
    storage.put("Person", 1, vec![3, 4]);
    let mut pool = BufferPoolImpl::new(2, 1);
    let lock = pool.fetch_page(&storage, key("Person", 0)).unwrap();
    assert_eq!(lock.data(), &[1, 2]);
    assert_eq!(
        pool.page_entry(&key("Person", 0)),
        Some(PageTableEntry {
            frame_index: 0,
            pin_count: 0,
            access_count: 1,
            state: PageState::Clean,
            readers: 1,
        })
    );
    assert_eq!(pool.fetch_page(&storage, key("Person", 1)).unwrap_err(), PoolError::Busy);
    assert_eq!(pool.release_page(lock), Ok(()));
    storage.put("Person", 0, vec![9, 9]);
    let lock = pool.fetch_page(&storage, key("Person", 0)).unwrap();
    assert_eq!(lock.data(), &[1, 2]);
    assert_eq!(pool.release_page(lock), Ok(()));
    let lock = pool.fetch_page(&storage, key("Person", 1)).unwrap();
    assert_eq!(lock.data(), &[3, 4]);
    assert!(!pool.contains_page(key("Person", 0)));
    assert_eq!(pool.release_page(lock), Ok(()));
}

#[test]
fn fetch_page_passes_on_what_storage_refuses() {
    let storage = MemoryStorage::new();
    storage.put("Person", 2, vec![1, 2, 3]);
    let mut pool = BufferPoolImpl::new(2, 1);
    assert_eq!(pool.fetch_page(&storage, key("Person", 0)).unwrap_err(), PoolError::NotFound);
    assert_eq!(pool.fetch_page(&storage, key("Person", 2)).unwrap_err(), PoolError::OutOfRange);
    storage.failing.set(true);
    assert_eq!(pool.fetch_page(&storage, key("Person", 0)).unwrap_err(), PoolError::IoFailure);
    assert!(!pool.contains_page(key("Person", 0)));
    assert!(!pool.contains_page(key("Person", 2)));
}

#[test]
fn admit_page_takes_what_was_read() {
    let storage = MemoryStorage::new();
    let mut pool = BufferPoolImpl::new(2, 1);
    assert_eq!(
        pool.admit_page(&storage, key("Person", 0), Err(StorageError::NotFound)).unwrap_err(),
        PoolError::NotFound
    );
    assert_eq!(
        pool.admit_page(&storage, key("Person", 0), Err(StorageError::IoError)).unwrap_err(),
        PoolError::IoFailure
    );
    assert_eq!(pool.admit_page(&storage, key("Person", 0), Ok(vec![1])).unwrap_err(), PoolError::OutOfRange);
    let lock = pool.admit_page(&storage, key("Person", 0), Ok(vec![1, 2])).unwrap();
    assert_eq!(lock.data(), &[1, 2]);
    assert_eq!(lock.id(), &key("Person", 0));
    assert_eq!(pool.release_page(lock), Ok(()));
}

#[test]
fn plan_load_names_each_way_in() {
    let storage = MemoryStorage::new();
    let mut pool = BufferPoolImpl::new(2, 1);
    assert!(matches!(pool.plan_load(&key("Person", 0), 3), LoadPlan::Reject(PoolError::OutOfRange)));
    assert!(matches!(pool.plan_load(&key("Person", 0), 2), LoadPlan::UseFree));
    assert_eq!(pool.load_page(&storage, key("Person", 0), vec![1, 2]), Ok(()));
    assert!(matches!(pool.plan_load(&key("Person", 0), 2), LoadPlan::Overwrite));
    match pool.plan_load(&key("Person", 1), 2) {
        LoadPlan::Evict(victim) => assert_eq!(victim, key("Person", 0)),
        other => panic!("eviction was expected, not {:?}", other),
    }
    assert_eq!(pool.set_pinned(key("Person", 0), true), Ok(()));
    assert!(matches!(pool.plan_load(&key("Person", 1), 2), LoadPlan::Reject(PoolError::PoolExhausted)));
    assert_eq!(pool.set_pinned(key("Person", 0), false), Ok(()));
    let lock = pool.get_page(key("Person", 0)).unwrap();
    assert!(matches!(pool.plan_load(&key("Person", 1), 2), LoadPlan::Reject(PoolError::Busy)));
    assert!(matches!(pool.plan_load(&key("Person", 0), 2), LoadPlan::Reject(PoolError::Busy)));
    assert_eq!(pool.release_page(lock), Ok(()));
}

#[test]
fn complete_load_takes_the_write_back_result() {
    let mut pool = BufferPoolImpl::new(2, 1);
    assert_eq!(pool.complete_load(key("Person", 0), vec![1, 2, 3], true), Err(PoolError::OutOfRange));
    assert_eq!(pool.complete_load(key("Person", 0), vec![1, 2], false), Ok(()));
    assert_eq!(pool.complete_load(key("Person", 1), vec![3, 4], false), Ok(()));
    assert!(!pool.contains_page(key("Person", 0)));
    assert_eq!(pool.mutate_page(key("Person", 1), 0, vec![5]), Ok(()));
    assert_eq!(pool.complete_load(key("Person", 2), vec![6, 7], false), Err(PoolError::IoFailure));
    assert!(pool.contains_page(key("Person", 1)));
    assert!(!pool.contains_page(key("Person", 2)));
    assert_eq!(read(&mut pool, "Person", 1), vec![5, 4]);
    assert_eq!(pool.complete_load(key("Person", 1), vec![8, 9], false), Ok(()));
    assert_eq!(pool.page_entry(&key("Person", 1)).unwrap().state, PageState::Dirty);
    assert_eq!(pool.complete_load(key("Person", 2), vec![6, 7], true), Ok(()));
    assert!(!pool.contains_page(key("Person", 1)));
    assert_eq!(read(&mut pool, "Person", 2), vec![6, 7]);
    assert_eq!(pool.set_pinned(key("Person", 2), true), Ok(()));
    assert_eq!(pool.complete_load(key("Person", 3), vec![0, 0], true), Err(PoolError::PoolExhausted));
}

#[test]
fn dirty_page_hands_out_what_must_be_persisted() {
    let storage = MemoryStorage::new();
    let mut pool = BufferPoolImpl::new(2, 2);
    assert_eq!(pool.load_page(&storage, key("Person", 0), vec![1, 2]), Ok(()));
    assert!(pool.dirty_page(&key("Person", 0)).is_none());
    assert!(pool.dirty_page(&key("Person", 1)).is_none());
    assert_eq!(pool.mutate_page(key("Person", 0), 1, vec![9]), Ok(()));
    let page = pool.dirty_page(&key("Person", 0)).unwrap();
    assert_eq!(page.size, 2);
    assert_eq!(page.index(0), Some(1));
    assert_eq!(page.index(1), Some(9));
    assert_eq!(page.index(2), None);
}

#[test]
fn complete_remove_takes_the_write_back_result() {
    let storage = MemoryStorage::new();
    let mut pool = BufferPoolImpl::new(2, 2);
    assert_eq!(pool.load_page(&storage, key("Person", 0), vec![1, 2]), Ok(()));
    assert_eq!(pool.load_page(&storage, key("Person", 1), vec![3, 4]), Ok(()));
    assert_eq!(pool.mutate_page(key("Person", 0), 0, vec![5]), Ok(()));
    assert_eq!(pool.complete_remove(&key("Person", 0), false), Err(PoolError::IoFailure));
    assert_eq!(pool.complete_remove(&key("Person", 1), false), Ok(()));
    assert_eq!(pool.complete_remove(&key("Person", 0), true), Ok(()));
    assert_eq!(pool.complete_remove(&key("Person", 0), true), Err(PoolError::NotResident));
}

#[test]
fn pool_of_one_frame_of_one_byte() {
    let storage = MemoryStorage::new();
    let mut pool = BufferPoolImpl::new(1, 1);
    assert_eq!(pool.load_page(&storage, key("", 0), vec![7]), Ok(()));
    assert_eq!(read(&mut pool, "", 0), vec![7]);
    assert_eq!(pool.mutate_page(key("", 0), 0, vec![8]), Ok(()));
    assert_eq!(pool.mutate_page(key("", 0), 1, vec![8]), Err(PoolError::OutOfRange));
    assert_eq!(pool.load_page(&storage, key("", usize::MAX), vec![9]), Ok(()));
    assert_eq!(storage.held("", 0), Some(vec![8]));
    assert_eq!(read(&mut pool, "", usize::MAX), vec![9]);
}
