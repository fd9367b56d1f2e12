//! The buffer pool: pages are loaded into frames, read under read locks,
//! changed in place, pinned, and evicted when no frame is free.
//!
//! A pool is owned by one caller at a time. Where an operation of a shared
//! pool would have to wait for readers to let go, this pool answers `Busy`
//! and leaves the waiting to its caller.

use vstd::prelude::*;
use vstd::slice::slice_to_vec;

use crate::contracts::{StorageError, StorageHandler};
use crate::definitions::{clone_key, BufferPoolKey, Page, PageState, PoolError};
use crate::frame_buffer::{splice, FrameBuffer};
use crate::page_table::{PageTable, PageTableEntry, PageTableItemReadLock};
use crate::laws::law_loaded_page_is_read_back;
use crate::pool_state::{lemma_victim_exists, LoadPlanView, PoolState};

verus! {

/// A read lock on a cached page, with the bytes that the page had when the
/// lock was taken. While the lock is outstanding the page is neither
/// changed nor evicted, so the bytes stay those of the page.
#[derive(Debug)]
pub struct PageReadLock {
    item_lock: PageTableItemReadLock,
    data: Vec<u8>,
}

impl View for PageReadLock {
    type V = Seq<u8>;

    /// The bytes of the locked page.
    closed spec fn view(&self) -> Seq<u8> {
        self.data@
    }
}

impl PageReadLock {
    /// The page that is locked.
    pub closed spec fn key(&self) -> (Seq<char>, usize) {
        self.item_lock@
    }

    pub(crate) fn new(item_lock: PageTableItemReadLock, data: Vec<u8>) -> (lock: Self)
        ensures
            lock@ == data@,
            lock.key() == item_lock@,
    {
        Self { item_lock, data }
    }

    /// The page that is locked.
    pub fn id(&self) -> (id: &BufferPoolKey)
        ensures
            id@ == self.key(),
    {
        self.item_lock.id()
    }

    /// The bytes of the locked page.
    pub fn data(&self) -> (bytes: &[u8])
        ensures
            bytes@ == self@,
    {
        self.data.as_slice()
    }

    /// The locked page, to be read byte by byte.
    pub fn page(&self) -> (page: Page<'_>)
        requires
            0 < self@.len(),
        ensures
            page.wf(),
            page@ == self@,
    {
        Page::new(self.data.len(), self.data.as_slice())
    }
}

/// How a page is brought into the pool, as decided by `plan_load`.
#[derive(Debug)]
pub enum LoadPlan {
    /// It is not: the pool stays as it is and the error is returned.
    Reject(PoolError),
    /// The page is cached and its frame is overwritten in place.
    Overwrite,
    /// The page takes the first frame of the free list.
    UseFree,
    /// No frame is free: the given page is evicted and its frame reused.
    Evict(BufferPoolKey),
}

impl View for LoadPlan {
    type V = LoadPlanView;

    open spec fn view(&self) -> LoadPlanView {
        match self {
            LoadPlan::Reject(error) => LoadPlanView::Reject(*error),
            LoadPlan::Overwrite => LoadPlanView::Overwrite,
            LoadPlan::UseFree => LoadPlanView::UseFree,
            LoadPlan::Evict(victim) => LoadPlanView::Evict(victim@),
        }
    }
}

/// What reading a page has answered, as contracts see it: the bytes under
/// the lock, or the error.
pub open spec fn lock_view(outcome: Result<PageReadLock, PoolError>) -> Result<Seq<u8>, PoolError> {
    match outcome {
        Ok(lock) => Ok(lock@),
        Err(error) => Err(error),
    }
}

/// What a storage handler has read, as contracts see it.
pub open spec fn read_view(read: Result<Vec<u8>, StorageError>) -> Result<Seq<u8>, StorageError> {
    match read {
        Ok(bytes) => Ok(bytes@),
        Err(error) => Err(error),
    }
}

/// A pool of frames that caches pages of tables.
pub struct BufferPoolImpl {
    frame_buffer: FrameBuffer,
    page_table: PageTable,
}

impl View for BufferPoolImpl {
    type V = PoolState;

    closed spec fn view(&self) -> PoolState {
        PoolState {
            page_size: self.frame_buffer.page_size(),
            frames: self.frame_buffer@,
            free: self.page_table.free_list(),
            entries: self.page_table.entries(),
        }
    }
}

impl BufferPoolImpl {
    /// The frame buffer and the page table are well-formed and of the same
    /// number of frames, and every frame is free or occupied.
    pub closed spec fn wf(&self) -> bool {
        &&& self.frame_buffer.wf()
        &&& self.page_table.wf()
        &&& self.page_table.capacity() == self.frame_buffer.entries_count()
        &&& forall|frame: usize| !self.page_table.is_unclaimed(frame)
    }

    /// The state of a well-formed pool is valid.
    pub proof fn lemma_valid(&self)
        requires
            self.wf(),
        ensures
            self@.valid(),
    {
        self.frame_buffer.lemma_shape();
        self.page_table.lemma_valid();
        assert forall|frame: usize| frame < self@.frames.len() implies #[trigger] self@.accounts_for(
            frame,
        ) by {
            self.page_table.lemma_unclaimed(frame);
        }
    }

    /// Every cached page lies in a frame of the buffer.
    proof fn lemma_frames(&self)
        requires
            self.wf(),
        ensures
            self@.valid(),
            self.frame_buffer@.len() == self.frame_buffer.entries_count(),
            forall|key: (Seq<char>, usize)| #[trigger]
                self.page_table.entries().contains_key(key) ==> self.page_table.entries()[key].frame_index
                    < self.frame_buffer.entries_count(),
    {
        self.lemma_valid();
        self.frame_buffer.lemma_shape();
    }

    /// A pool of `entries_count` blank frames of `page_size` bytes that
    /// caches no page.
    pub fn new(page_size: usize, entries_count: usize) -> (pool: Self)
        requires
            page_size > 0,
            entries_count > 0,
            page_size * entries_count <= usize::MAX,
        ensures
            pool.wf(),
            pool@ == PoolState::empty(page_size, entries_count),
    {
        let pool = Self {
            frame_buffer: FrameBuffer::new(page_size, entries_count),
            page_table: PageTable::new(entries_count),
        };
        proof {
            let free = pool.page_table.free_list();
            assert forall|frame: usize| !pool.page_table.is_unclaimed(frame) by {
                pool.page_table.lemma_unclaimed(frame);
                if frame < entries_count {
                    assert(free[frame as int] == frame);
                }
            }
        }
        pool
    }

    /// Bytes per page.
    pub fn page_size(&self) -> (size: usize)
        ensures
            size == self@.page_size,
    {
        self.frame_buffer.page_size()
    }

    /// Number of frames.
    pub fn entries_count(&self) -> (count: usize)
        requires
            self.wf(),
        ensures
            count == self@.frames.len(),
    {
        proof {
            self.frame_buffer.lemma_shape();
        }
        self.frame_buffer.entries_count()
    }

    /// Whether the page is cached. Nothing is counted or locked.
    pub fn contains_page(&self, id: BufferPoolKey) -> (cached: bool)
        requires
            self.wf(),
        ensures
            cached == self@.is_resident(id@),
    {
        self.page_table.contains(&id)
    }

    /// What the page table records of the page, if the page is cached.
    pub fn page_entry(&self, id: &BufferPoolKey) -> (entry: Option<PageTableEntry>)
        requires
            self.wf(),
        ensures
            entry == (if self@.is_resident(id@) {
                Some(self@.entries[id@])
            } else {
                None
            }),
    {
        self.page_table.get_item(id)
    }

    /// Takes a read lock on a cached page and hands out its bytes. The
    /// access is counted. The lock is to be given back with `release_page`.
    pub fn get_page(&mut self, id: BufferPoolKey) -> (outcome: Result<PageReadLock, PoolError>)
        requires
            old(self).wf(),
        ensures
            final(self).wf(),
            lock_view(outcome) == old(self)@.get_page_outcome(id@),
            final(self)@ == old(self)@.after_get_page(id@),
            outcome matches Ok(lock) ==> lock.key() == id@ && lock@.len() == old(self)@.page_size,
    {
        proof {
            self.lemma_frames();
        }
        let item_lock: PageTableItemReadLock = match self.page_table.get_read(id) {
            Err(error) => {
                return Err(error);
            },
            Ok(item_lock) => item_lock,
        };
        let data: Vec<u8> = slice_to_vec(self.frame_buffer.frame(item_lock.frame_index()));
        Ok(PageReadLock::new(item_lock, data))
    }

    /// Gives a read lock back.
    pub fn release_page(&mut self, lock: PageReadLock) -> (outcome: Result<(), PoolError>)
        requires
            old(self).wf(),
        ensures
            final(self).wf(),
            outcome == old(self)@.release_page_outcome(lock.key()),
            final(self)@ == old(self)@.after_release_page(lock.key()),
    {
        match self.page_table.release_read(lock.item_lock) {
            Ok(()) => {
                Ok(())
            },
            Err(error) => {
                Err(error)
            },
        }
    }

    /// Overwrites bytes of a cached page from `offset` on, marks the page
    /// dirty and counts the access.
    pub fn mutate_page(&mut self, id: BufferPoolKey, offset: usize, data: Vec<u8>) -> (outcome: Result<
        (),
        PoolError,
    >)
        requires
            old(self).wf(),
        ensures
            final(self).wf(),
            outcome == old(self)@.mutate_page_outcome(id@, offset, data@.len()),
            final(self)@ == old(self)@.after_mutate_page(id@, offset, data@),
            offset + data@.len() > old(self)@.page_size ==> {
                &&& outcome matches Err(PoolError::OutOfRange)
                &&& final(self)@ == old(self)@
            },
    {
        proof {
            self.lemma_frames();
        }
        let page_size: usize = self.frame_buffer.page_size();
        if offset > page_size || data.len() > page_size - offset {
            return Err(PoolError::OutOfRange);
        }
        match self.page_table.get_item_mut(&id) {
            None => Err(PoolError::NotResident),
            Some(entry) => {
                if entry.readers > 0 {
                    return Err(PoolError::Busy);
                }
                self.frame_buffer.store(entry.frame_index, offset, data.as_slice());
                entry.state = PageState::Dirty;
                entry.record_access();
                Ok(())
            },
        }
    }

    /// Pins a cached page, or takes one pin off it. A pinned page is never
    /// evicted.
    pub fn set_pinned(&mut self, id: BufferPoolKey, pinned: bool) -> (outcome: Result<(), PoolError>)
        requires
            old(self).wf(),
        ensures
            final(self).wf(),
            outcome == old(self)@.set_pinned_outcome(id@, pinned),
            final(self)@ == old(self)@.after_set_pinned(id@, pinned),
    {
        match self.page_table.get_item_mut(&id) {
            None => Err(PoolError::NotResident),
            Some(entry) => {
                if pinned {
                    if entry.pin_count == usize::MAX {
                        return Err(PoolError::Overflow);
                    }
                    entry.pin_count = entry.pin_count + 1;
                } else {
                    if entry.pin_count == 0 {
                        return Err(PoolError::Underflow);
                    }
                    entry.pin_count = entry.pin_count - 1;
                }
                Ok(())
            },
        }
    }

    /// Decides how a page of `length` bytes is brought into the pool.
    /// Nothing is changed.
    pub fn plan_load(&self, id: &BufferPoolKey, length: usize) -> (plan: LoadPlan)
        requires
            self.wf(),
        ensures
            plan@ == self@.load_plan(id@, length as nat),
    {
        proof {
            self.lemma_frames();
        }
        if length != self.frame_buffer.page_size() {
            return LoadPlan::Reject(PoolError::OutOfRange);
        }
        match self.page_table.get_item(id) {
            Some(entry) => {
                if entry.readers > 0 {
                    LoadPlan::Reject(PoolError::Busy)
                } else {
                    LoadPlan::Overwrite
                }
            },
            None => {
                if self.page_table.has_free_frame() {
                    return LoadPlan::UseFree;
                }
                match self.page_table.find_victim() {
                    None => LoadPlan::Reject(PoolError::PoolExhausted),
                    Some(victim) => {
                        if self.page_table.get_item(&victim).unwrap().readers > 0 {
                            LoadPlan::Reject(PoolError::Busy)
                        } else {
                            LoadPlan::Evict(victim)
                        }
                    },
                }
            },
        }
    }

    /// The bytes of a cached page that must be persisted before the page
    /// leaves the pool: those of a dirty page, and nothing for a clean or
    /// absent one.
    pub fn dirty_page(&self, id: &BufferPoolKey) -> (page: Option<Page<'_>>)
        requires
            self.wf(),
        ensures
            match page {
                Some(bytes) => {
                    &&& self@.is_resident(id@)
                    &&& self@.entries[id@].is_dirty()
                    &&& bytes.wf()
                    &&& bytes.size == self@.page_size
                    &&& bytes@ == self@.bytes_of(id@)
                },
                None => !(self@.is_resident(id@) && self@.entries[id@].is_dirty()),
            },
    {
        proof {
            self.lemma_frames();
        }
        match self.page_table.get_item(id) {
            None => None,
            Some(entry) => {
                match entry.state {
                    PageState::Clean => None,
                    PageState::Dirty => Some(
                        Page::new(
                            self.frame_buffer.page_size(),
                            self.frame_buffer.frame(entry.frame_index),
                        ),
                    ),
                }
            },
        }
    }

    /// Carries out a plan made by `plan_load` for the same page and bytes.
    fn apply_load(&mut self, plan: LoadPlan, id: BufferPoolKey, data: Vec<u8>, persisted: bool) -> (outcome:
        Result<(), PoolError>)
        requires
            old(self).wf(),
            plan@ == old(self)@.load_plan(id@, data@.len()),
        ensures
            final(self).wf(),
            outcome == old(self)@.load_page_outcome(id@, data@.len(), persisted),
            final(self)@ == old(self)@.after_load_page(id@, data@, persisted),
    {
        proof {
            self.lemma_frames();
        }
        match plan {
            LoadPlan::Reject(error) => Err(error),
            LoadPlan::Overwrite => {
                let entry: &mut PageTableEntry = self.page_table.get_item_mut(&id).unwrap();
                proof {
                    assert(splice(self.frame_buffer@[entry.frame_index as int], 0, data@)
                        =~= data@);
                }
                self.frame_buffer.store(entry.frame_index, 0, data.as_slice());
                entry.record_access();
                Ok(())
            },
            LoadPlan::UseFree => {
                let frame: usize = self.page_table.find_free_frame().unwrap();
                proof {
                    assert(splice(self.frame_buffer@[frame as int], 0, data@) =~= data@);
                }
                self.frame_buffer.store(frame, 0, data.as_slice());
                self.page_table.insert(id, frame);
                Ok(())
            },
            LoadPlan::Evict(victim) => {
                proof {
                    lemma_victim_exists(self@);
                }
                let evicted: PageTableEntry = self.page_table.get_item(&victim).unwrap();
                if evicted.state == PageState::Dirty && !persisted {
                    return Err(PoolError::IoFailure);
                }
                let _ = self.page_table.remove(&victim);
                let frame: usize = self.page_table.find_free_frame().unwrap();
                proof {
                    assert(splice(self.frame_buffer@[frame as int], 0, data@) =~= data@);
                }
                self.frame_buffer.store(frame, 0, data.as_slice());
                self.page_table.insert(id, frame);
                Ok(())
            },
        }
    }

    /// Brings a page into the pool once the bytes that the load displaces
    /// are safe. `persisted` says whether the bytes of the dirty page that
    /// the load evicts, if it evicts one, have been written back.
    pub fn complete_load(&mut self, id: BufferPoolKey, data: Vec<u8>, persisted: bool) -> (outcome: Result<
        (),
        PoolError,
    >)
        requires
            old(self).wf(),
        ensures
            final(self).wf(),
            outcome == old(self)@.load_page_outcome(id@, data@.len(), persisted),
            final(self)@ == old(self)@.after_load_page(id@, data@, persisted),
    {
        let plan: LoadPlan = self.plan_load(&id, data.len());
        self.apply_load(plan, id, data, persisted)
    }

    /// Brings a page into the pool. A cached page is overwritten in place;
    /// it stays dirty if it was, since nothing was written back.
    /// A page that is new to the pool takes a free frame, or the frame of
    /// the unpinned page that was accessed least (of several, the one in the
    /// lowest frame); that page's bytes are handed to the storage handler
    /// first if it is dirty, and it stays cached if the handler fails.
    pub fn load_page<S: StorageHandler>(&mut self, storage: &S, id: BufferPoolKey, data: Vec<u8>) -> (outcome:
        Result<(), PoolError>)
        requires
            old(self).wf(),
        ensures
            final(self).wf(),
            old(self)@.load_page_gives(id@, data@, outcome, final(self)@),
    {
        let plan: LoadPlan = self.plan_load(&id, data.len());
        let persisted: bool = match &plan {
            LoadPlan::Evict(victim) => {
                match self.dirty_page(victim) {
                    Some(page) => storage.write_page(victim.0.clone(), victim.1, page).is_ok(),
                    None => true,
                }
            },
            _ => true,
        };
        self.apply_load(plan, id, data, persisted)
    }

    /// Takes what the storage handler has read of a page: the bytes are
    /// loaded as `load_page` loads them, and locked and handed out as
    /// `get_page` does. A failed read is passed on, and the pool stays as it
    /// is.
    pub fn admit_page<S: StorageHandler>(
        &mut self,
        storage: &S,
        id: BufferPoolKey,
        read: Result<Vec<u8>, StorageError>,
    ) -> (outcome: Result<PageReadLock, PoolError>)
        requires
            old(self).wf(),
        ensures
            final(self).wf(),
            old(self)@.admit_page_gives(id@, read_view(read), lock_view(outcome), final(self)@),
            outcome matches Ok(lock) ==> lock.key() == id@,
    {
        proof {
            self.lemma_valid();
        }
        match read {
            Err(StorageError::IoError) => Err(PoolError::IoFailure),
            Err(StorageError::NotFound) => Err(PoolError::NotFound),
            Ok(bytes) => {
                let ghost data = bytes@;
                match self.load_page(storage, clone_key(&id), bytes) {
                    Err(error) => Err(error),
                    Ok(()) => {
                        proof {
                            law_loaded_page_is_read_back(old(self)@, id@, data, true);
                        }
                        self.get_page(id)
                    },
                }
            },
        }
    }

    /// Reads a page through the cache. A cached page is locked and handed
    /// out as `get_page` does. A page that is not cached is first read from
    /// the storage handler and loaded as `load_page` does.
    pub fn fetch_page<S: StorageHandler>(&mut self, storage: &S, id: BufferPoolKey) -> (outcome: Result<
        PageReadLock,
        PoolError,
    >)
        requires
            old(self).wf(),
        ensures
            final(self).wf(),
            old(self)@.fetch_page_gives(id@, lock_view(outcome), final(self)@),
            outcome matches Ok(lock) ==> lock.key() == id@,
    {
        if self.page_table.contains(&id) {
            self.get_page(id)
        } else {
            let read: Result<Vec<u8>, StorageError> = storage.read_page(id.0.clone(), id.1);
            self.admit_page(storage, id, read)
        }
    }

    /// Removes a cached page once its bytes are safe. `persisted` says
    /// whether the bytes of the page, if it is dirty, have been written
    /// back.
    pub fn complete_remove(&mut self, id: &BufferPoolKey, persisted: bool) -> (outcome: Result<(), PoolError>)
        requires
            old(self).wf(),
        ensures
            final(self).wf(),
            outcome == old(self)@.remove_page_outcome(id@, persisted),
            final(self)@ == old(self)@.after_remove_page(id@, persisted),
    {
        let entry: PageTableEntry = match self.page_table.get_item(id) {
            None => {
                return Err(PoolError::NotResident);
            },
            Some(entry) => entry,
        };
        if entry.pin_count > 0 || entry.readers > 0 {
            return Err(PoolError::Busy);
        }
        if entry.state == PageState::Dirty && !persisted {
            return Err(PoolError::IoFailure);
        }
        let _ = self.page_table.remove(id);
        Ok(())
    }

    /// Removes a cached page and frees its frame. A page that is pinned or
    /// read stays, and the caller is to try again later. The bytes of a
    /// dirty page are handed to the storage handler first, and the page
    /// stays if the handler fails.
    pub fn remove_page<S: StorageHandler>(&mut self, storage: &S, id: &BufferPoolKey) -> (outcome: Result<
        (),
        PoolError,
    >)
        requires
            old(self).wf(),
        ensures
            final(self).wf(),
            old(self)@.remove_page_gives(id@, outcome, final(self)@),
    {
        let idle: bool = match self.page_table.get_item(id) {
            Some(entry) => entry.pin_count == 0 && entry.readers == 0,
            None => false,
        };
        let persisted: bool = if idle {
            match self.dirty_page(id) {
                Some(page) => storage.write_page(id.0.clone(), id.1, page).is_ok(),
                None => true,
            }
        } else {
            true
        };
        self.complete_remove(id, persisted)
    }
}

} // verus!
