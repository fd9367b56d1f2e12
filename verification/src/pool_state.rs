//! A buffer pool as contracts see it: frames of bytes, a free list and the
//! table of cached pages, with each operation of the pool as a function from
//! the state before to the answer and the state after.

use vstd::prelude::*;

use crate::contracts::StorageError;
use crate::definitions::{PageKeyView, PageState, PoolError};
use crate::frame_buffer::{blank_frames, splice};
use crate::page_table::{has_candidate, is_victim, table_valid, PageEntries, PageTableEntry};

verus! {

/// How a page is brought into the pool.
pub enum LoadPlanView {
    /// It is not: the pool stays as it is and the error is returned.
    Reject(PoolError),
    /// The page is cached and its frame is overwritten in place.
    Overwrite,
    /// The page takes the first frame of the free list.
    UseFree,
    /// No frame is free: the given page is evicted and its frame reused.
    Evict(PageKeyView),
}

/// What a pool holds at one moment.
#[verifier::ext_equal]
pub struct PoolState {
    /// Bytes per frame.
    pub page_size: usize,
    /// The bytes of every frame, by frame index.
    pub frames: Seq<Seq<u8>>,
    /// The free frames, the next to be handed out first.
    pub free: Seq<usize>,
    /// The cached pages and what is recorded of each.
    pub entries: PageEntries,
}

impl PoolState {
    /// A pool of `entries_count` blank frames, none of them occupied.
    pub open spec fn empty(page_size: usize, entries_count: usize) -> PoolState {
        PoolState {
            page_size,
            frames: blank_frames(page_size as nat, entries_count as nat),
            free: Seq::new(entries_count as nat, |i: int| i as usize),
            entries: Map::empty(),
        }
    }

    /// Whether the frame is free or holds a cached page.
    pub open spec fn accounts_for(self, frame: usize) -> bool {
        self.free.contains(frame) || exists|key: PageKeyView|
            #![trigger self.entries[key]]
            self.entries.contains_key(key) && self.entries[key].frame_index == frame
    }

    /// Every frame has the pool's page size and is either free or occupied
    /// by exactly one page, and every cached page occupies a frame of its
    /// own.
    pub open spec fn valid(self) -> bool {
        &&& self.page_size > 0
        &&& 0 < self.frames.len() <= usize::MAX
        &&& forall|i: int| 0 <= i < self.frames.len() ==> (#[trigger] self.frames[i]).len() == self.page_size
        &&& table_valid(self.frames.len() as usize, self.free, self.entries)
        &&& forall|frame: usize| frame < self.frames.len() ==> #[trigger] self.accounts_for(frame)
    }

    /// Whether the page is cached.
    pub open spec fn is_resident(self, key: PageKeyView) -> bool {
        self.entries.contains_key(key)
    }

    /// The bytes of a cached page.
    pub open spec fn bytes_of(self, key: PageKeyView) -> Seq<u8> {
        self.frames[self.entries[key].frame_index as int]
    }

    /// The state with the entry of `key` replaced.
    pub open spec fn with_entry(self, key: PageKeyView, entry: PageTableEntry) -> PoolState {
        PoolState { entries: self.entries.insert(key, entry), ..self }
    }

    /// The state with the bytes of one frame replaced.
    pub open spec fn with_frame(self, frame: usize, bytes: Seq<u8>) -> PoolState {
        PoolState { frames: self.frames.update(frame as int, bytes), ..self }
    }

    // Reading a page.

    /// What `get_page` answers: the bytes of the page, unless the page is
    /// not cached or its reader count cannot grow.
    pub open spec fn get_page_outcome(self, key: PageKeyView) -> Result<Seq<u8>, PoolError> {
        if !self.is_resident(key) {
            Err(PoolError::NotResident)
        } else if self.entries[key].readers == usize::MAX {
            Err(PoolError::Overflow)
        } else {
            Ok(self.bytes_of(key))
        }
    }

    /// The state after `get_page`: one more reader and one more access.
    pub open spec fn after_get_page(self, key: PageKeyView) -> PoolState {
        if self.get_page_outcome(key) is Ok {
            self.with_entry(key, self.entries[key].read_locked())
        } else {
            self
        }
    }

    /// What giving a read lock back answers.
    pub open spec fn release_page_outcome(self, key: PageKeyView) -> Result<(), PoolError> {
        if !self.is_resident(key) {
            Err(PoolError::NotResident)
        } else if self.entries[key].readers == 0 {
            Err(PoolError::Underflow)
        } else {
            Ok(())
        }
    }

    /// The state after a read lock was given back: one reader fewer.
    pub open spec fn after_release_page(self, key: PageKeyView) -> PoolState {
        if self.release_page_outcome(key) is Ok {
            self.with_entry(key, self.entries[key].read_unlocked())
        } else {
            self
        }
    }

    // Changing a page.

    /// What `mutate_page` answers. The range is judged first, then whether
    /// the page is cached, then whether readers hold its frame.
    pub open spec fn mutate_page_outcome(self, key: PageKeyView, offset: usize, length: nat) -> Result<
        (),
        PoolError,
    > {
        if offset + length > self.page_size {
            Err(PoolError::OutOfRange)
        } else if !self.is_resident(key) {
            Err(PoolError::NotResident)
        } else if self.entries[key].readers > 0 {
            Err(PoolError::Busy)
        } else {
            Ok(())
        }
    }

    /// The state after `mutate_page`: the bytes from `offset` on replaced by
    /// `data`, the page dirty and accessed once more.
    pub open spec fn after_mutate_page(self, key: PageKeyView, offset: usize, data: Seq<u8>) -> PoolState {
        if self.mutate_page_outcome(key, offset, data.len()) is Ok {
            let entry = self.entries[key];
            self.with_frame(
                entry.frame_index,
                splice(self.bytes_of(key), offset as int, data),
            ).with_entry(key, PageTableEntry { state: PageState::Dirty, ..entry.accessed() })
        } else {
            self
        }
    }

    // Pinning.

    /// What `set_pinned` answers.
    pub open spec fn set_pinned_outcome(self, key: PageKeyView, pinned: bool) -> Result<(), PoolError> {
        if !self.is_resident(key) {
            Err(PoolError::NotResident)
        } else if pinned && self.entries[key].pin_count == usize::MAX {
            Err(PoolError::Overflow)
        } else if !pinned && self.entries[key].pin_count == 0 {
            Err(PoolError::Underflow)
        } else {
            Ok(())
        }
    }

    /// The state after `set_pinned`: the pin count one higher or one lower.
    pub open spec fn after_set_pinned(self, key: PageKeyView, pinned: bool) -> PoolState {
        if self.set_pinned_outcome(key, pinned) is Ok {
            let entry = self.entries[key];
            let pin_count = if pinned {
                (entry.pin_count + 1) as usize
            } else {
                (entry.pin_count - 1) as usize
            };
            self.with_entry(key, PageTableEntry { pin_count, ..entry })
        } else {
            self
        }
    }

    // Loading a page.

    /// The page that eviction takes, if a cached page is unpinned.
    pub open spec fn victim(self) -> PageKeyView {
        choose|key: PageKeyView| is_victim(self.entries, key)
    }

    /// How `load_page` proceeds for a page and the length of its bytes.
    pub open spec fn load_plan(self, key: PageKeyView, length: nat) -> LoadPlanView {
        if length != self.page_size {
            LoadPlanView::Reject(PoolError::OutOfRange)
        } else if self.is_resident(key) {
            if self.entries[key].readers > 0 {
                LoadPlanView::Reject(PoolError::Busy)
            } else {
                LoadPlanView::Overwrite
            }
        } else if self.free.len() > 0 {
            LoadPlanView::UseFree
        } else if !has_candidate(self.entries) {
            LoadPlanView::Reject(PoolError::PoolExhausted)
        } else if self.entries[self.victim()].readers > 0 {
            LoadPlanView::Reject(PoolError::Busy)
        } else {
            LoadPlanView::Evict(self.victim())
        }
    }

    /// Whether loading the page evicts a dirty page, whose bytes must be
    /// persisted first.
    pub open spec fn load_writes_back(self, key: PageKeyView, length: nat) -> bool {
        self.load_plan(key, length) matches LoadPlanView::Evict(victim) && self.entries[victim].is_dirty()
    }

    /// What `load_page` answers, given whether the write-back that the load
    /// may need has succeeded.
    pub open spec fn load_page_outcome(self, key: PageKeyView, length: nat, persisted: bool) -> Result<
        (),
        PoolError,
    > {
        if let LoadPlanView::Reject(error) = self.load_plan(key, length) {
            Err(error)
        } else if self.load_writes_back(key, length) && !persisted {
            Err(PoolError::IoFailure)
        } else {
            Ok(())
        }
    }

    /// The state after `load_page`. A page that is overwritten in place is
    /// accessed once more and stays dirty if it was; a page that is new to
    /// the pool has a fresh entry, in the first free frame or in the frame of
    /// the evicted page.
    pub open spec fn after_load_page(self, key: PageKeyView, data: Seq<u8>, persisted: bool) -> PoolState {
        if self.load_page_outcome(key, data.len(), persisted) is Err {
            self
        } else {
            match self.load_plan(key, data.len()) {
                LoadPlanView::Reject(_) => self,
                LoadPlanView::Overwrite => {
                    let entry = self.entries[key];
                    self.with_frame(entry.frame_index, data).with_entry(key, entry.accessed())
                },
                LoadPlanView::UseFree => {
                    let frame = self.free[0];
                    PoolState {
                        frames: self.frames.update(frame as int, data),
                        free: self.free.drop_first(),
                        entries: self.entries.insert(key, PageTableEntry::fresh(frame)),
                        ..self
                    }
                },
                LoadPlanView::Evict(victim) => {
                    let frame = self.entries[victim].frame_index;
                    PoolState {
                        frames: self.frames.update(frame as int, data),
                        entries: self.entries.remove(victim).insert(
                            key,
                            PageTableEntry::fresh(frame),
                        ),
                        ..self
                    }
                },
            }
        }
    }

    /// Whether a load may answer `outcome` and leave the pool as `after`:
    /// it goes as planned, with any write-back that it needs done; or it
    /// needs a write-back, that fails, and nothing changes.
    pub open spec fn load_page_gives(
        self,
        key: PageKeyView,
        data: Seq<u8>,
        outcome: Result<(), PoolError>,
        after: PoolState,
    ) -> bool {
        ||| outcome == self.load_page_outcome(key, data.len(), true) && after
            == self.after_load_page(key, data, true)
        ||| self.load_writes_back(key, data.len()) && outcome == Err::<(), PoolError>(
            PoolError::IoFailure,
        ) && after == self
    }

    // Reading a page through the cache.

    /// What taking a page from storage answers when no write-back fails:
    /// the bytes that the storage handler has read, unless the read has
    /// failed or the load is refused.
    pub open spec fn admit_page_outcome(
        self,
        key: PageKeyView,
        read: Result<Seq<u8>, StorageError>,
    ) -> Result<Seq<u8>, PoolError> {
        match read {
            Err(StorageError::IoError) => Err(PoolError::IoFailure),
            Err(StorageError::NotFound) => Err(PoolError::NotFound),
            Ok(bytes) => match self.load_page_outcome(key, bytes.len(), true) {
                Err(error) => Err(error),
                Ok(()) => Ok(bytes),
            },
        }
    }

    /// The state after a page was taken from storage and no write-back has
    /// failed: the page loaded and read-locked, or the pool as it was.
    pub open spec fn after_admit_page(
        self,
        key: PageKeyView,
        read: Result<Seq<u8>, StorageError>,
    ) -> PoolState {
        match self.admit_page_outcome(key, read) {
            Ok(bytes) => self.after_load_page(key, bytes, true).after_get_page(key),
            Err(_) => self,
        }
    }

    /// Whether taking what was read of a page may answer `outcome` and leave
    /// the pool as `after`: the load goes as planned, with any write-back
    /// that it needs done; or it needs a write-back, that fails, and nothing
    /// changes.
    pub open spec fn admit_page_gives(
        self,
        key: PageKeyView,
        read: Result<Seq<u8>, StorageError>,
        outcome: Result<Seq<u8>, PoolError>,
        after: PoolState,
    ) -> bool {
        ||| outcome == self.admit_page_outcome(key, read) && after == self.after_admit_page(
            key,
            read,
        )
        ||| read matches Ok(bytes) && self.load_writes_back(key, bytes.len()) && outcome == Err::<
            Seq<u8>,
            PoolError,
        >(PoolError::IoFailure) && after == self
    }

    /// Whether `fetch_page` may answer `outcome` and leave the pool as
    /// `after`: a cached page is read as `get_page` reads it; one that is
    /// not cached is taken from whatever the storage handler reads.
    pub open spec fn fetch_page_gives(
        self,
        key: PageKeyView,
        outcome: Result<Seq<u8>, PoolError>,
        after: PoolState,
    ) -> bool {
        if self.is_resident(key) {
            outcome == self.get_page_outcome(key) && after == self.after_get_page(key)
        } else {
            exists|read: Result<Seq<u8>, StorageError>| #[trigger]
                self.admit_page_gives(key, read, outcome, after)
        }
    }

    // Removing a page.

    /// Whether removing the page must persist its bytes first.
    pub open spec fn remove_writes_back(self, key: PageKeyView) -> bool {
        self.is_resident(key) && self.entries[key].is_idle() && self.entries[key].is_dirty()
    }

    /// What `remove_page` answers, given whether the write-back that the
    /// removal may need has succeeded. A page that is pinned or read stays.
    pub open spec fn remove_page_outcome(self, key: PageKeyView, persisted: bool) -> Result<
        (),
        PoolError,
    > {
        if !self.is_resident(key) {
            Err(PoolError::NotResident)
        } else if !self.entries[key].is_idle() {
            Err(PoolError::Busy)
        } else if self.entries[key].is_dirty() && !persisted {
            Err(PoolError::IoFailure)
        } else {
            Ok(())
        }
    }

    /// Whether a removal may answer `outcome` and leave the pool as `after`:
    /// it goes as it would with any write-back that it needs done; or it
    /// needs a write-back, that fails, and nothing changes.
    pub open spec fn remove_page_gives(
        self,
        key: PageKeyView,
        outcome: Result<(), PoolError>,
        after: PoolState,
    ) -> bool {
        ||| outcome == self.remove_page_outcome(key, true) && after == self.after_remove_page(
            key,
            true,
        )
        ||| self.remove_writes_back(key) && outcome == Err::<(), PoolError>(PoolError::IoFailure)
            && after == self
    }

    /// The state after `remove_page`: the page is gone and its frame heads
    /// the free list.
    pub open spec fn after_remove_page(self, key: PageKeyView, persisted: bool) -> PoolState {
        if self.remove_page_outcome(key, persisted) is Ok {
            PoolState {
                free: seq![self.entries[key].frame_index] + self.free,
                entries: self.entries.remove(key),
                ..self
            }
        } else {
            self
        }
    }
}

/// Whether `key` is an unpinned page in a frame below `bound` that outranks
/// every other such page.
pub open spec fn is_victim_below(
    entries: PageEntries,
    key: PageKeyView,
    bound: nat,
) -> bool {
    &&& entries.contains_key(key)
    &&& entries[key].pin_count == 0
    &&& entries[key].frame_index < bound
    &&& forall|other: PageKeyView|
        entries.contains_key(other) && entries[other].pin_count == 0 && entries[other].frame_index
            < bound ==> entries[key].outranks(#[trigger] entries[other])
}

/// Whether `key` is an unpinned page in the given frame.
pub open spec fn is_candidate_in(
    entries: PageEntries,
    key: PageKeyView,
    frame: nat,
) -> bool {
    entries.contains_key(key) && entries[key].pin_count == 0 && entries[key].frame_index == frame
}

/// Among the unpinned pages in frames below `bound`, if there are any, one
/// outranks all.
pub proof fn lemma_victim_below(state: PoolState, bound: nat)
    requires
        state.valid(),
    ensures
        (exists|key: PageKeyView| is_victim_below(state.entries, key, bound)) || (forall|
            other: PageKeyView,
        |
            state.entries.contains_key(other) && (#[trigger] state.entries[other]).pin_count == 0
                ==> state.entries[other].frame_index >= bound),
    decreases bound,
{
    let entries = state.entries;
    if bound > 0 {
        let frame = (bound - 1) as nat;
        lemma_victim_below(state, frame);
        if exists|key: PageKeyView| is_candidate_in(entries, key, frame) {
            let found = choose|key: PageKeyView| is_candidate_in(entries, key, frame);
            if exists|key: PageKeyView| is_victim_below(entries, key, frame) {
                let best = choose|key: PageKeyView| is_victim_below(entries, key, frame);
                if entries[found].access_count < entries[best].access_count {
                    assert forall|other: PageKeyView|
                        entries.contains_key(other) && entries[other].pin_count == 0
                            && entries[other].frame_index < bound implies entries[found].outranks(
                        #[trigger] entries[other],
                    ) by {
                    }
                    assert(is_victim_below(entries, found, bound));
                } else {
                    assert(is_victim_below(entries, best, bound));
                }
            }
        } else {
            if exists|key: PageKeyView| is_victim_below(entries, key, frame) {
                let best = choose|key: PageKeyView| is_victim_below(entries, key, frame);
                assert forall|other: PageKeyView|
                    entries.contains_key(other) && entries[other].pin_count == 0
                        && entries[other].frame_index < bound implies entries[best].outranks(
                    #[trigger] entries[other],
                ) by {
                    assert(!is_candidate_in(entries, other, frame));
                }
                assert(is_victim_below(entries, best, bound));
            } else {
                assert forall|other: PageKeyView|
                    entries.contains_key(other) && (#[trigger] entries[other]).pin_count
                        == 0 implies entries[other].frame_index >= bound by {
                    assert(!is_candidate_in(entries, other, frame));
                }
            }
        }
    }
}

/// In a valid pool with an unpinned page, eviction has a victim.
pub proof fn lemma_victim_exists(state: PoolState)
    requires
        state.valid(),
        has_candidate(state.entries),
    ensures
        is_victim(state.entries, state.victim()),
{
    let entries = state.entries;
    lemma_victim_below(state, state.frames.len());
    let best = choose|key: PageKeyView| is_victim_below(entries, key, state.frames.len());
    assert(is_victim(entries, best));
}

} // verus!
