//! The page table: which page occupies which frame, the counters kept for
//! each cached page, and the list of free frames.
//!
//! Frames are handed out from a free list that is threaded through the table
//! itself: a free slot holds the index of the next free slot.

use vstd::prelude::*;

use crate::definitions::{clone_key, BufferPoolKey, PageKeyView, PageState, PoolError};
use crate::key_map::{
    key_map_entries, key_map_get, key_map_insert, key_map_new, key_map_remove, KeyMap,
};

verus! {

/// What the table records of a cached page.
#[derive(Clone, Copy, PartialEq, Eq, Debug, Structural)]
pub struct PageTableEntry {
    /// The frame that holds the page's bytes.
    pub frame_index: usize,
    /// How many holders forbid eviction.
    pub pin_count: usize,
    /// How often the page has been read or written.
    pub access_count: usize,
    /// Whether the bytes differ from what was last persisted.
    pub state: PageState,
    /// How many read locks on the frame are outstanding.
    pub readers: usize,
}

/// A count one higher, or unchanged once it has reached the largest value.
pub open spec fn bumped(count: usize) -> usize {
    if count < usize::MAX {
        (count + 1) as usize
    } else {
        count
    }
}

impl PageTableEntry {
    /// The entry of a page that has just been loaded into `frame_index`.
    pub open spec fn fresh(frame_index: usize) -> PageTableEntry {
        PageTableEntry {
            frame_index,
            pin_count: 0,
            access_count: 0,
            state: PageState::Clean,
            readers: 0,
        }
    }

    /// Whether the page has been changed since it was last persisted.
    pub open spec fn is_dirty(self) -> bool {
        self.state == PageState::Dirty
    }

    /// Neither pinned nor read: the frame may be taken away or overwritten.
    pub open spec fn is_idle(self) -> bool {
        self.pin_count == 0 && self.readers == 0
    }

    /// The entry after one more access.
    pub open spec fn accessed(self) -> PageTableEntry {
        PageTableEntry { access_count: bumped(self.access_count), ..self }
    }

    /// The entry after one more read lock was taken, which counts as an
    /// access.
    pub open spec fn read_locked(self) -> PageTableEntry {
        PageTableEntry {
            readers: (self.readers + 1) as usize,
            access_count: bumped(self.access_count),
            ..self
        }
    }

    /// The entry after a read lock was given back.
    pub open spec fn read_unlocked(self) -> PageTableEntry {
        PageTableEntry { readers: (self.readers - 1) as usize, ..self }
    }

    /// Leaves before `other` when a frame must be reclaimed: accessed less
    /// often, or as often and in a lower frame.
    pub open spec fn outranks(self, other: PageTableEntry) -> bool {
        self.access_count < other.access_count || (self.access_count == other.access_count
            && self.frame_index <= other.frame_index)
    }

    /// The entry of a page that has just been loaded into `frame_index`:
    /// unpinned, unread, clean and never accessed.
    pub fn new(frame_index: usize) -> (entry: Self)
        ensures
            entry == Self::fresh(frame_index),
    {
        PageTableEntry {
            frame_index,
            pin_count: 0,
            access_count: 0,
            state: PageState::Clean,
            readers: 0,
        }
    }

    /// Counts one more access; the count stays at the largest machine value
    /// once it is reached.
    pub fn record_access(&mut self)
        ensures
            *final(self) == old(self).accessed(),
    {
        if self.access_count < usize::MAX {
            self.access_count = self.access_count + 1;
        }
    }
}

/// The cached pages and what is recorded of each, by page key.
pub type PageEntries = Map<PageKeyView, PageTableEntry>;

/// Whether `key` is the page that eviction takes: an unpinned page that
/// outranks every other unpinned page.
pub open spec fn is_victim(entries: PageEntries, key: PageKeyView) -> bool {
    &&& entries.contains_key(key)
    &&& entries[key].pin_count == 0
    &&& forall|other: PageKeyView|
        entries.contains_key(other) && entries[other].pin_count == 0 ==> entries[key].outranks(
            #[trigger] entries[other],
        )
}

/// Whether any cached page is unpinned.
pub open spec fn has_candidate(entries: PageEntries) -> bool {
    exists|key: PageKeyView| #[trigger] entries.contains_key(key) && entries[key].pin_count == 0
}

/// What must hold of a table's free list and entries, whatever the table's
/// representation: frames are in range, no frame is listed twice or both
/// free and occupied, and no two pages share a frame.
pub open spec fn table_valid(
    capacity: usize,
    free: Seq<usize>,
    entries: PageEntries,
) -> bool {
    &&& forall|i: int| 0 <= i < free.len() ==> #[trigger] free[i] < capacity
    &&& forall|i: int, j: int| 0 <= i < j < free.len() ==> free[i] != free[j]
    &&& forall|key: PageKeyView| #[trigger]
        entries.contains_key(key) ==> entries[key].frame_index < capacity && !free.contains(
            entries[key].frame_index,
        )
    &&& forall|a: PageKeyView, b: PageKeyView|
        #![trigger entries[a], entries[b]]
        entries.contains_key(a) && entries.contains_key(b) && a != b ==> entries[a].frame_index
            != entries[b].frame_index
}

/// One slot of the table, for the frame of the same index.
#[derive(Debug)]
pub enum PageTableItem {
    /// The frame is free (or has just been handed out and awaits its page).
    Free { next_free_index: Option<usize> },
    /// The frame holds the page `id`.
    Occupied { id: BufferPoolKey, entry: PageTableEntry },
}

impl PageTableItem {
    /// The item of a page that has just been loaded into `frame_index`.
    pub fn new(id: BufferPoolKey, frame_index: usize) -> (item: Self)
        ensures
            item == (PageTableItem::Occupied { id, entry: PageTableEntry::fresh(frame_index) }),
    {
        PageTableItem::Occupied { id, entry: PageTableEntry::new(frame_index) }
    }

    /// The item of a free frame that links to the next free frame.
    pub fn new_free(next_free_index: Option<usize>) -> (item: Self)
        ensures
            item == (PageTableItem::Free { next_free_index }),
    {
        PageTableItem::Free { next_free_index }
    }

    /// The item of an occupied frame; the same as `new`.
    pub fn new_occupied(id: BufferPoolKey, frame_index: usize) -> (item: Self)
        ensures
            item == (PageTableItem::Occupied { id, entry: PageTableEntry::fresh(frame_index) }),
    {
        Self::new(id, frame_index)
    }
}

/// Proof that a read lock on a page's frame was taken and not yet given back.
#[derive(Debug)]
pub struct PageTableItemReadLock {
    id: BufferPoolKey,
    frame_index: usize,
}

impl View for PageTableItemReadLock {
    type V = PageKeyView;

    /// The page whose frame is locked.
    closed spec fn view(&self) -> PageKeyView {
        self.id@
    }
}

impl PageTableItemReadLock {
    /// The frame that is locked.
    pub closed spec fn spec_frame_index(&self) -> usize {
        self.frame_index
    }

    pub(crate) fn new(id: BufferPoolKey, frame_index: usize) -> (lock: Self)
        ensures
            lock@ == id@,
            lock.frame_index() == frame_index,
    {
        Self { id, frame_index }
    }

    /// The frame that is locked.
    #[verifier::when_used_as_spec(spec_frame_index)]
    pub fn frame_index(&self) -> (frame_index: usize)
        ensures
            frame_index == self.spec_frame_index(),
    {
        self.frame_index
    }

    /// The page whose frame is locked.
    pub fn id(&self) -> (id: &BufferPoolKey)
        ensures
            id@ == self@,
    {
        &self.id
    }
}

/// The table of cached pages and the free list, over a fixed number of
/// frames.
pub struct PageTable {
    root: Option<usize>,
    table: Vec<PageTableItem>,
    buffer_map: KeyMap,
    free_frames: Ghost<Seq<usize>>,
}

impl PageTable {
    spec fn links_ok(&self) -> bool {
        let free = self.free_frames@;
        &&& self.root == (if free.len() == 0 {
            None::<usize>
        } else {
            Some(free[0])
        })
        &&& forall|i: int|
            0 <= i < free.len() ==> (#[trigger] free[i]) < self.table@.len() && self.table@[free[i] as int]
                == (PageTableItem::Free {
                next_free_index: if i + 1 < free.len() {
                    Some(free[i + 1])
                } else {
                    None::<usize>
                },
            })
        &&& forall|i: int, j: int| 0 <= i < j < free.len() ==> free[i] != free[j]
    }

    spec fn map_ok(&self) -> bool {
        let held = key_map_entries(self.buffer_map);
        &&& forall|key: PageKeyView| #[trigger]
            held.contains_key(key) ==> {
                &&& held[key] < self.table@.len()
                &&& self.table@[held[key] as int] is Occupied
                &&& self.table@[held[key] as int]->id@ == key
            }
        &&& forall|i: int|
            0 <= i < self.table@.len() && (#[trigger] self.table@[i]) is Occupied ==> {
                &&& held.contains_key(self.table@[i]->id@)
                &&& held[self.table@[i]->id@] == i
                &&& self.table@[i]->entry.frame_index == i
            }
    }

    /// The free slots are linked from the root in the order of the free
    /// list, and the key map and the occupied slots mirror each other.
    pub closed spec fn wf(&self) -> bool {
        &&& 0 < self.table@.len() <= usize::MAX
        &&& self.links_ok()
        &&& self.map_ok()
    }

    /// Number of frames that the table manages.
    pub closed spec fn capacity(&self) -> usize {
        self.table@.len() as usize
    }

    /// The free frames, the next to be handed out first.
    pub closed spec fn free_list(&self) -> Seq<usize> {
        self.free_frames@
    }

    /// The cached pages and what is recorded of each.
    pub closed spec fn entries(&self) -> PageEntries {
        Map::new(
            |key: PageKeyView| key_map_entries(self.buffer_map).contains_key(key),
            |key: PageKeyView| self.table@[key_map_entries(self.buffer_map)[key] as int]->entry,
        )
    }

    /// Whether the frame has been handed out by `find_free_frame` and is
    /// neither occupied nor back in the free list.
    pub closed spec fn is_unclaimed(&self, frame: usize) -> bool {
        &&& frame < self.table@.len()
        &&& self.table@[frame as int] is Free
        &&& !self.free_frames@.contains(frame)
    }

    /// A well-formed table is valid in the sense of `table_valid`.
    pub proof fn lemma_valid(&self)
        requires
            self.wf(),
        ensures
            self.capacity() > 0,
            table_valid(self.capacity(), self.free_list(), self.entries()),
    {
    }

    /// A frame is unclaimed exactly if it is in range, not in the free list
    /// and not the frame of any cached page.
    pub proof fn lemma_unclaimed(&self, frame: usize)
        requires
            self.wf(),
        ensures
            self.is_unclaimed(frame) <==> {
                &&& frame < self.capacity()
                &&& !self.free_list().contains(frame)
                &&& forall|key: PageKeyView| #[trigger]
                    self.entries().contains_key(key) ==> self.entries()[key].frame_index != frame
            },
    {
        let entries = self.entries();
        if frame < self.table@.len() {
            if self.table@[frame as int] is Occupied {
                let key = self.table@[frame as int]->id@;
                assert(entries.contains_key(key));
            }
        }
    }

    /// A table of `entries_count` free frames and no cached page. The frames
    /// will be handed out in the order of their indices.
    pub fn new(entries_count: usize) -> (table: Self)
        requires
            entries_count > 0,
        ensures
            table.wf(),
            table.capacity() == entries_count,
            table.entries() == PageEntries::empty(),
            table.free_list() == Seq::new(entries_count as nat, |i: int| i as usize),
    {
        let mut items: Vec<PageTableItem> = Vec::with_capacity(entries_count);
        let mut index: usize = 0;
        while index < entries_count
            invariant
                index <= entries_count,
                items@.len() == index,
                forall|i: int|
                    0 <= i < index ==> (#[trigger] items@[i]) == (PageTableItem::Free {
                        next_free_index: if i + 1 < entries_count {
                            Some((i + 1) as usize)
                        } else {
                            None::<usize>
                        },
                    }),
            decreases entries_count - index,
        {
            let next: Option<usize> = if index + 1 < entries_count {
                Some(index + 1)
            } else {
                None
            };
            items.push(PageTableItem::new_free(next));
            index = index + 1;
        }
        let table = Self {
            root: Some(0),
            table: items,
            buffer_map: key_map_new(),
            free_frames: Ghost(Seq::new(entries_count as nat, |i: int| i as usize)),
        };
        table
    }

    /// The frame that holds the page, if the page is cached.
    pub fn lookup(&self, id: &BufferPoolKey) -> (frame: Option<usize>)
        requires
            self.wf(),
        ensures
            frame == (if self.entries().contains_key(id@) {
                Some(self.entries()[id@].frame_index)
            } else {
                None
            }),
    {
        key_map_get(&self.buffer_map, id)
    }

    /// Whether the page is cached.
    pub fn contains(&self, id: &BufferPoolKey) -> (cached: bool)
        requires
            self.wf(),
        ensures
            cached == self.entries().contains_key(id@),
    {
        key_map_get(&self.buffer_map, id).is_some()
    }

    /// What is recorded of the page, if the page is cached.
    pub fn get_item(&self, id: &BufferPoolKey) -> (item: Option<PageTableEntry>)
        requires
            self.wf(),
        ensures
            item == (if self.entries().contains_key(id@) {
                Some(self.entries()[id@])
            } else {
                None
            }),
    {
        match key_map_get(&self.buffer_map, id) {
            None => None,
            Some(frame) => {
                match &self.table[frame] {
                    PageTableItem::Occupied { entry, .. } => Some(*entry),
                    PageTableItem::Free { .. } => None,
                }
            },
        }
    }

    /// What is recorded of a cached page, to be changed in place. As long as
    /// the entry keeps its frame, the table stays well-formed and only this
    /// entry changes.
    pub fn get_item_mut(&mut self, id: &BufferPoolKey) -> (item: Option<&mut PageTableEntry>)
        requires
            old(self).wf(),
        ensures
            match item {
                Some(entry) => {
                    &&& old(self).entries().contains_key(id@)
                    &&& *entry == old(self).entries()[id@]
                    &&& final(entry).frame_index == entry.frame_index ==> {
                        &&& final(self).wf()
                        &&& final(self).capacity() == old(self).capacity()
                        &&& final(self).free_list() == old(self).free_list()
                        &&& final(self).entries() == old(self).entries().insert(id@, *final(entry))
                        &&& forall|frame: usize|
                            final(self).is_unclaimed(frame) == old(self).is_unclaimed(frame)
                    }
                },
                None => !old(self).entries().contains_key(id@) && *final(self) == *old(self),
            },
    {
        let frame: usize = match key_map_get(&self.buffer_map, id) {
            None => {
                return None;
            },
            Some(frame) => frame,
        };
        match &mut self.table[frame] {
            PageTableItem::Occupied { entry, .. } => Some(entry),
            PageTableItem::Free { .. } => None,
        }
    }

    /// Whether a frame is free.
    pub fn has_free_frame(&self) -> (free: bool)
        requires
            self.wf(),
        ensures
            free == (self.free_list().len() > 0),
    {
        self.root.is_some()
    }

    /// Takes the first frame off the free list, if there is one. The frame
    /// then awaits `insert` or `release_frame`.
    pub fn find_free_frame(&mut self) -> (frame: Option<usize>)
        requires
            old(self).wf(),
        ensures
            final(self).wf(),
            final(self).capacity() == old(self).capacity(),
            final(self).entries() == old(self).entries(),
            match frame {
                Some(index) => {
                    &&& old(self).free_list().len() > 0
                    &&& index == old(self).free_list()[0]
                    &&& final(self).free_list() == old(self).free_list().drop_first()
                    &&& final(self).is_unclaimed(index)
                    &&& forall|other: usize|
                        other != index ==> final(self).is_unclaimed(other) == old(
                            self,
                        ).is_unclaimed(other)
                },
                None => {
                    &&& old(self).free_list().len() == 0
                    &&& final(self).free_list() == old(self).free_list()
                    &&& forall|other: usize|
                        final(self).is_unclaimed(other) == old(self).is_unclaimed(other)
                },
            },
    {
        match self.root {
            None => None,
            Some(index) => {
                let ghost free = self.free_frames@;
                let next: Option<usize> = match &self.table[index] {
                    PageTableItem::Free { next_free_index } => *next_free_index,
                    PageTableItem::Occupied { .. } => None,
                };
                self.root = next;
                self.free_frames = Ghost(free.drop_first());
                proof {
                    let rest = free.drop_first();
                    assert forall|other: usize| other != index implies self.is_unclaimed(other)
                        == old(self).is_unclaimed(other) by {
                        if rest.contains(other) {
                            let i = choose|i: int| 0 <= i < rest.len() && rest[i] == other;
                            assert(free[i + 1] == other);
                        }
                        if free.contains(other) {
                            let i = choose|i: int| 0 <= i < free.len() && free[i] == other;
                            assert(rest[i - 1] == other);
                        }
                    }
                }
                Some(index)
            },
        }
    }

    /// Puts an unclaimed frame back at the head of the free list.
    pub fn release_frame(&mut self, index: usize)
        requires
            old(self).wf(),
            old(self).is_unclaimed(index),
        ensures
            final(self).wf(),
            final(self).capacity() == old(self).capacity(),
            final(self).entries() == old(self).entries(),
            final(self).free_list() == seq![index] + old(self).free_list(),
            !final(self).is_unclaimed(index),
            forall|other: usize|
                other != index ==> final(self).is_unclaimed(other) == old(self).is_unclaimed(other),
    {
        let item: PageTableItem = PageTableItem::new_free(self.root);
        self.table.set(index, item);
        self.root = Some(index);
        self.free_frames = Ghost(seq![index] + self.free_frames@);
        proof {
            self.lemma_pushed(old(self), index);
        }
    }

    /// The free list after `index` was pushed onto `before`, whose slot
    /// `index` was neither in the free list nor recorded in the key map.
    proof fn lemma_pushed(&self, before: &Self, index: usize)
        requires
            before.table@.len() > 0,
            before.links_ok(),
            index < before.table@.len(),
            !before.free_frames@.contains(index),
            self.table@ == before.table@.update(
                index as int,
                PageTableItem::Free { next_free_index: before.root },
            ),
            self.root == Some(index),
            self.free_frames@ == seq![index] + before.free_frames@,
        ensures
            self.links_ok(),
            !self.is_unclaimed(index),
            forall|other: usize|
                other != index && before.table@[other as int] is Free ==> self.is_unclaimed(other)
                    == before.is_unclaimed(other),
    {
        let free = before.free_frames@;
        let grown = self.free_frames@;
        assert forall|other: usize|
            other != index && before.table@[other as int] is Free implies self.is_unclaimed(other)
            == before.is_unclaimed(other) by {
            if grown.contains(other) {
                let i = choose|i: int| 0 <= i < grown.len() && grown[i] == other;
                assert(free[i - 1] == other);
            }
            if free.contains(other) {
                let i = choose|i: int| 0 <= i < free.len() && free[i] == other;
                assert(grown[i + 1] == other);
            }
        }
    }

    /// Records that the page now occupies the frame: unpinned, unread, clean
    /// and never accessed.
    pub fn insert(&mut self, id: BufferPoolKey, frame_index: usize)
        requires
            old(self).wf(),
            old(self).is_unclaimed(frame_index),
            !old(self).entries().contains_key(id@),
        ensures
            final(self).wf(),
            final(self).capacity() == old(self).capacity(),
            final(self).free_list() == old(self).free_list(),
            final(self).entries() == old(self).entries().insert(
                id@,
                PageTableEntry::fresh(frame_index),
            ),
            !final(self).is_unclaimed(frame_index),
            forall|other: usize|
                other != frame_index ==> final(self).is_unclaimed(other) == old(self).is_unclaimed(
                    other,
                ),
    {
        key_map_insert(&mut self.buffer_map, &id, frame_index);
        self.table.set(frame_index, PageTableItem::new_occupied(id, frame_index));
    }

    /// Forgets a cached page and puts its frame back at the head of the free
    /// list. A page that is pinned or read stays: the caller is to wait and
    /// try again.
    pub fn remove(&mut self, id: &BufferPoolKey) -> (outcome: Result<usize, PoolError>)
        requires
            old(self).wf(),
        ensures
            final(self).wf(),
            final(self).capacity() == old(self).capacity(),
            forall|other: usize| final(self).is_unclaimed(other) == old(self).is_unclaimed(other),
            match outcome {
                Ok(frame) => {
                    &&& old(self).entries().contains_key(id@)
                    &&& old(self).entries()[id@].is_idle()
                    &&& frame == old(self).entries()[id@].frame_index
                    &&& final(self).entries() == old(self).entries().remove(id@)
                    &&& final(self).free_list() == seq![frame] + old(self).free_list()
                },
                Err(error) => {
                    &&& final(self).entries() == old(self).entries()
                    &&& final(self).free_list() == old(self).free_list()
                    &&& error == (if old(self).entries().contains_key(id@) {
                        PoolError::Busy
                    } else {
                        PoolError::NotResident
                    })
                    &&& old(self).entries().contains_key(id@) ==> !old(self).entries()[id@].is_idle()
                },
            },
    {
        let entry: PageTableEntry = match self.get_item(id) {
            None => {
                return Err(PoolError::NotResident);
            },
            Some(entry) => entry,
        };
        if entry.pin_count > 0 || entry.readers > 0 {
            return Err(PoolError::Busy);
        }
        let frame: usize = entry.frame_index;
        key_map_remove(&mut self.buffer_map, id);
        let item: PageTableItem = PageTableItem::new_free(self.root);
        self.table.set(frame, item);
        self.root = Some(frame);
        self.free_frames = Ghost(seq![frame] + self.free_frames@);
        proof {
            self.lemma_pushed(old(self), frame);
        }
        Ok(frame)
    }

    /// The page that eviction takes: among the unpinned pages the one that
    /// was accessed least, and of several such the one in the lowest frame.
    pub fn find_victim(&self) -> (victim: Option<BufferPoolKey>)
        requires
            self.wf(),
        ensures
            match victim {
                Some(id) => is_victim(self.entries(), id@),
                None => !has_candidate(self.entries()),
            },
    {
        let mut best: Option<usize> = None;
        let mut best_count: usize = 0;
        let mut index: usize = 0;
        let count: usize = self.table.len();
        while index < count
            invariant
                index <= count,
                count == self.table@.len(),
                match best {
                    Some(frame) => {
                        &&& frame < index
                        &&& self.table@[frame as int] is Occupied
                        &&& self.table@[frame as int]->entry.pin_count == 0
                        &&& self.table@[frame as int]->entry.access_count == best_count
                        &&& self.table@[frame as int]->entry.frame_index == frame
                        &&& forall|i: int|
                            0 <= i < index && (#[trigger] self.table@[i]) is Occupied
                                && self.table@[i]->entry.pin_count == 0 ==> best_count
                                < self.table@[i]->entry.access_count || (best_count
                                == self.table@[i]->entry.access_count && frame <= i)
                    },
                    None => forall|i: int|
                        0 <= i < index && (#[trigger] self.table@[i]) is Occupied
                            ==> self.table@[i]->entry.pin_count != 0,
                },
                self.wf(),
            decreases count - index,
        {
            match &self.table[index] {
                PageTableItem::Occupied { entry, .. } => {
                    if entry.pin_count == 0 {
                        let better: bool = match best {
                            None => true,
                            Some(_) => entry.access_count < best_count,
                        };
                        if better {
                            best = Some(index);
                            best_count = entry.access_count;
                        }
                    }
                },
                PageTableItem::Free { .. } => {},
            }
            index = index + 1;
        }
        match best {
            None => {
                None
            },
            Some(frame) => {
                match &self.table[frame] {
                    PageTableItem::Occupied { id, .. } => {
                        Some(clone_key(id))
                    },
                    PageTableItem::Free { .. } => None,
                }
            },
        }
    }

    /// Takes a read lock on the frame of a cached page, and counts the
    /// access.
    pub fn get_read(&mut self, id: BufferPoolKey) -> (outcome: Result<
        PageTableItemReadLock,
        PoolError,
    >)
        requires
            old(self).wf(),
        ensures
            final(self).wf(),
            final(self).capacity() == old(self).capacity(),
            final(self).free_list() == old(self).free_list(),
            forall|other: usize| final(self).is_unclaimed(other) == old(self).is_unclaimed(other),
            match outcome {
                Ok(lock) => {
                    &&& lock@ == id@
                    &&& old(self).entries().contains_key(id@)
                    &&& old(self).entries()[id@].readers < usize::MAX
                    &&& lock.frame_index() == old(self).entries()[id@].frame_index
                    &&& final(self).entries() == old(self).entries().insert(
                        id@,
                        old(self).entries()[id@].read_locked(),
                    )
                },
                Err(error) => {
                    &&& final(self).entries() == old(self).entries()
                    &&& error == (if old(self).entries().contains_key(id@) {
                        PoolError::Overflow
                    } else {
                        PoolError::NotResident
                    })
                    &&& old(self).entries().contains_key(id@) ==> old(self).entries()[id@].readers
                        == usize::MAX
                },
            },
    {
        let frame_index: usize = match self.get_item_mut(&id) {
            None => {
                return Err(PoolError::NotResident);
            },
            Some(entry) => {
                if entry.readers == usize::MAX {
                    return Err(PoolError::Overflow);
                }
                entry.readers = entry.readers + 1;
                entry.record_access();
                entry.frame_index
            },
        };
        Ok(PageTableItemReadLock::new(id, frame_index))
    }

    /// Gives a read lock back.
    pub fn release_read(&mut self, lock: PageTableItemReadLock) -> (outcome: Result<(), PoolError>)
        requires
            old(self).wf(),
        ensures
            final(self).wf(),
            final(self).capacity() == old(self).capacity(),
            final(self).free_list() == old(self).free_list(),
            forall|other: usize| final(self).is_unclaimed(other) == old(self).is_unclaimed(other),
            match outcome {
                Ok(()) => {
                    &&& old(self).entries().contains_key(lock@)
                    &&& old(self).entries()[lock@].readers > 0
                    &&& final(self).entries() == old(self).entries().insert(
                        lock@,
                        old(self).entries()[lock@].read_unlocked(),
                    )
                },
                Err(error) => {
                    &&& final(self).entries() == old(self).entries()
                    &&& error == (if old(self).entries().contains_key(lock@) {
                        PoolError::Underflow
                    } else {
                        PoolError::NotResident
                    })
                    &&& old(self).entries().contains_key(lock@) ==> old(self).entries()[lock@].readers
                        == 0
                },
            },
    {
        match self.get_item_mut(&lock.id) {
            None => Err(PoolError::NotResident),
            Some(entry) => {
                if entry.readers == 0 {
                    return Err(PoolError::Underflow);
                }
                entry.readers = entry.readers - 1;
                Ok(())
            },
        }
    }
}

} // verus!
