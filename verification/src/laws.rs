//! What holds of every pool, stated over the pool's state and proved.

use vstd::prelude::*;

use crate::definitions::{PageKeyView, PageState, PoolError};
use crate::frame_buffer::splice;
use crate::page_table::{is_victim, PageTableEntry};
use crate::pool_state::{lemma_victim_exists, LoadPlanView, PoolState};

verus! {

/// The state after `times` pins of a page, one after the other.
pub open spec fn pinned_times(state: PoolState, key: PageKeyView, times: nat) -> PoolState
    decreases times,
{
    if times == 0 {
        state
    } else {
        pinned_times(state, key, (times - 1) as nat).after_set_pinned(key, true)
    }
}

/// The state after `times` unpins of a page, one after the other.
pub open spec fn unpinned_times(state: PoolState, key: PageKeyView, times: nat) -> PoolState
    decreases times,
{
    if times == 0 {
        state
    } else {
        unpinned_times(state, key, (times - 1) as nat).after_set_pinned(key, false)
    }
}

/// What persistent storage holds once the bytes of a page have been written
/// back, if the page is dirty: `store` with the page's bytes under its key.
pub open spec fn written_back(
    store: Map<PageKeyView, Seq<u8>>,
    state: PoolState,
    key: PageKeyView,
) -> Map<PageKeyView, Seq<u8>> {
    if state.entries[key].is_dirty() {
        store.insert(key, state.bytes_of(key))
    } else {
        store
    }
}

/// A page that is not cached cannot be read. A page that has been loaded is
/// read back as exactly the bytes that were loaded.
pub proof fn law_loaded_page_is_read_back(
    state: PoolState,
    key: PageKeyView,
    data: Seq<u8>,
    persisted: bool,
)
    requires
        state.valid(),
    ensures
        !state.is_resident(key) ==> state.get_page_outcome(key) matches Err(
            PoolError::NotResident,
        ),
        state.load_page_outcome(key, data.len(), persisted) is Ok ==> {
            &&& state.after_load_page(key, data, persisted).get_page_outcome(key) matches Ok(bytes)
            &&& bytes == data
        },
{
    if state.load_plan(key, data.len()) is Evict {
        lemma_victim_exists(state);
    }
}

/// After a page was changed, reading it yields the new bytes at the offset
/// and the old bytes elsewhere, and the page is dirty.
pub proof fn law_mutation_is_read_back(
    state: PoolState,
    key: PageKeyView,
    offset: usize,
    data: Seq<u8>,
)
    requires
        state.valid(),
        state.mutate_page_outcome(key, offset, data.len()) is Ok,
    ensures
        ({
            let after = state.after_mutate_page(key, offset, data);
            &&& after.get_page_outcome(key) is Ok
            &&& after.get_page_outcome(key)->Ok_0 == after.bytes_of(key)
            &&& after.bytes_of(key).len() == state.page_size
            &&& after.bytes_of(key).subrange(offset as int, offset + data.len()) == data
            &&& forall|i: int|
                0 <= i < offset || offset + data.len() <= i < state.page_size
                    ==> after.bytes_of(key)[i] == state.bytes_of(key)[i]
            &&& after.entries[key].is_dirty()
        }),
{
}

/// A change that does not fit the page is refused as out of range, whatever
/// else holds, and leaves the pool as it was.
pub proof fn law_out_of_range_changes_nothing(
    state: PoolState,
    key: PageKeyView,
    offset: usize,
    data: Seq<u8>,
)
    requires
        offset + data.len() > state.page_size,
    ensures
        state.mutate_page_outcome(key, offset, data.len()) matches Err(PoolError::OutOfRange),
        state.after_mutate_page(key, offset, data) == state,
{
}

/// Pins are counted: as long as the count fits the machine, `times` pins
/// succeed and raise the count by `times`.
pub proof fn law_pins_add_up(state: PoolState, key: PageKeyView, times: nat)
    requires
        state.is_resident(key),
        state.entries[key].pin_count + times <= usize::MAX,
    ensures
        pinned_times(state, key, times) == state.with_entry(
            key,
            PageTableEntry {
                pin_count: (state.entries[key].pin_count + times) as usize,
                ..state.entries[key]
            },
        ),
        times > 0 ==> pinned_times(state, key, (times - 1) as nat).set_pinned_outcome(key, true)
            is Ok,
    decreases times,
{
    if times > 0 {
        law_pins_add_up(state, key, (times - 1) as nat);
    }
}

/// Unpins are counted: `times` unpins of a page that is pinned at least so
/// often succeed and lower the count by `times`.
pub proof fn law_unpins_add_up(state: PoolState, key: PageKeyView, times: nat)
    requires
        state.is_resident(key),
        times <= state.entries[key].pin_count,
    ensures
        unpinned_times(state, key, times) == state.with_entry(
            key,
            PageTableEntry {
                pin_count: (state.entries[key].pin_count - times) as usize,
                ..state.entries[key]
            },
        ),
        times > 0 ==> unpinned_times(state, key, (times - 1) as nat).set_pinned_outcome(
            key,
            false,
        ) is Ok,
    decreases times,
{
    if times > 0 {
        law_unpins_add_up(state, key, (times - 1) as nat);
    }
}

/// Pinning is a reference count: after as many unpins as pins the pool is
/// as it was, and if the page was unpinned to begin with, one unpin more is
/// refused as an underflow and changes nothing.
pub proof fn law_pin_is_reference_count(state: PoolState, key: PageKeyView, times: nat)
    requires
        state.is_resident(key),
        state.entries[key].pin_count + times <= usize::MAX,
    ensures
        unpinned_times(pinned_times(state, key, times), key, times) == state,
        state.entries[key].pin_count == 0 ==> {
            let settled = unpinned_times(pinned_times(state, key, times), key, times);
            &&& settled.set_pinned_outcome(key, false) matches Err(PoolError::Underflow)
            &&& settled.after_set_pinned(key, false) == settled
        },
{
    law_pins_add_up(state, key, times);
    law_unpins_add_up(pinned_times(state, key, times), key, times);
}

/// Eviction takes only what may go: the page that a load evicts is cached,
/// neither pinned nor read, and outranks every other unpinned page; and no
/// page is evicted while a frame is free.
pub proof fn law_eviction_takes_an_idle_page(state: PoolState, key: PageKeyView, length: nat)
    requires
        state.valid(),
    ensures
        state.load_plan(key, length) matches LoadPlanView::Evict(victim) ==> {
            &&& is_victim(state.entries, victim)
            &&& state.entries[victim].is_idle()
            &&& victim != key
            &&& state.free.len() == 0
        },
{
    if state.load_plan(key, length) is Evict {
        lemma_victim_exists(state);
    }
}

/// A pinned page stays: it cannot be removed, and after a load of another
/// page it is cached as before, in the same frame and with the same bytes.
pub proof fn law_pinned_pages_stay(
    state: PoolState,
    key: PageKeyView,
    data: Seq<u8>,
    persisted: bool,
    pinned: PageKeyView,
)
    requires
        state.valid(),
        state.is_resident(pinned),
        state.entries[pinned].pin_count > 0,
        pinned != key,
    ensures
        state.remove_page_outcome(pinned, persisted) matches Err(PoolError::Busy),
        state.after_remove_page(pinned, persisted) == state,
        ({
            let after = state.after_load_page(key, data, persisted);
            &&& after.is_resident(pinned)
            &&& after.entries[pinned] == state.entries[pinned]
            &&& after.bytes_of(pinned) == state.bytes_of(pinned)
        }),
{
    if state.load_plan(key, data.len()) is Evict {
        lemma_victim_exists(state);
    }
}

/// A page that is being read stays as it is: while read locks on it are
/// outstanding it cannot be changed, overwritten or removed, and loading
/// another page neither evicts it nor touches its bytes.
pub proof fn law_readers_keep_their_page(
    state: PoolState,
    read: PageKeyView,
    key: PageKeyView,
    offset: usize,
    data: Seq<u8>,
    persisted: bool,
)
    requires
        state.valid(),
        state.is_resident(read),
        state.entries[read].readers > 0,
    ensures
        state.mutate_page_outcome(read, offset, data.len()) is Err,
        state.load_page_outcome(read, data.len(), persisted) is Err,
        state.remove_page_outcome(read, persisted) matches Err(PoolError::Busy),
        ({
            let after = state.after_load_page(key, data, persisted);
            &&& after.is_resident(read)
            &&& after.entries[read] == state.entries[read]
            &&& after.bytes_of(read) == state.bytes_of(read)
        }),
        ({
            let after = state.after_mutate_page(key, offset, data);
            &&& after.is_resident(read)
            &&& after.entries[read] == state.entries[read]
            &&& after.bytes_of(read) == state.bytes_of(read)
        }),
{
    if state.load_plan(key, data.len()) is Evict {
        lemma_victim_exists(state);
    }
}

/// Reading, changing, pinning and unlocking one page leave every other page
/// as it was: cached as before, with the same entry and the same bytes.
pub proof fn law_pages_do_not_interfere(
    state: PoolState,
    key: PageKeyView,
    other: PageKeyView,
    offset: usize,
    data: Seq<u8>,
    pinned: bool,
)
    requires
        state.valid(),
        key != other,
    ensures
        ({
            let after = state.after_get_page(key);
            &&& after.is_resident(other) == state.is_resident(other)
            &&& after.entries[other] == state.entries[other]
            &&& after.bytes_of(other) == state.bytes_of(other)
        }),
        ({
            let after = state.after_release_page(key);
            &&& after.is_resident(other) == state.is_resident(other)
            &&& after.entries[other] == state.entries[other]
            &&& after.bytes_of(other) == state.bytes_of(other)
        }),
        ({
            let after = state.after_set_pinned(key, pinned);
            &&& after.is_resident(other) == state.is_resident(other)
            &&& after.entries[other] == state.entries[other]
            &&& after.bytes_of(other) == state.bytes_of(other)
        }),
        state.is_resident(other) ==> {
            let after = state.after_mutate_page(key, offset, data);
            &&& after.is_resident(other)
            &&& after.entries[other] == state.entries[other]
            &&& after.bytes_of(other) == state.bytes_of(other)
        },
        state.get_page_outcome(other) == state.after_get_page(key).get_page_outcome(other),
        state.mutate_page_outcome(other, offset, data.len()) == state.after_get_page(
            key,
        ).mutate_page_outcome(other, offset, data.len()),
{
}

/// A dirty page leaves the pool only after its bytes were written back:
/// as long as no write-back has succeeded, no load evicts it and no removal
/// takes it, and reading, changing, pinning or overwriting it leaves it
/// dirty.
pub proof fn law_dirty_pages_are_written_back_first(
    state: PoolState,
    dirty: PageKeyView,
    key: PageKeyView,
    offset: usize,
    data: Seq<u8>,
    pinned: bool,
)
    requires
        state.valid(),
        state.is_resident(dirty),
        state.entries[dirty].is_dirty(),
    ensures
        state.remove_page_outcome(dirty, false) is Err,
        state.after_remove_page(dirty, false) == state,
        ({
            let after = state.after_load_page(key, data, false);
            after.is_resident(dirty) && after.entries[dirty].is_dirty()
        }),
        ({
            let after = state.after_get_page(key);
            after.is_resident(dirty) && after.entries[dirty].is_dirty()
        }),
        ({
            let after = state.after_release_page(key);
            after.is_resident(dirty) && after.entries[dirty].is_dirty()
        }),
        ({
            let after = state.after_mutate_page(key, offset, data);
            after.is_resident(dirty) && after.entries[dirty].is_dirty()
        }),
        ({
            let after = state.after_set_pinned(key, pinned);
            after.is_resident(dirty) && after.entries[dirty].is_dirty()
        }),
{
}

/// The access count of a page never falls while the page stays cached:
/// every operation on any page leaves it as it was or raises it.
pub proof fn law_access_counts_never_fall(
    state: PoolState,
    page: PageKeyView,
    key: PageKeyView,
    offset: usize,
    data: Seq<u8>,
    pinned: bool,
    persisted: bool,
)
    requires
        state.valid(),
        state.is_resident(page),
    ensures
        state.after_get_page(key).entries[page].access_count >= state.entries[page].access_count,
        state.after_release_page(key).entries[page].access_count
            >= state.entries[page].access_count,
        state.after_mutate_page(key, offset, data).entries[page].access_count
            >= state.entries[page].access_count,
        state.after_set_pinned(key, pinned).entries[page].access_count
            >= state.entries[page].access_count,
        ({
            let after = state.after_load_page(key, data, persisted);
            after.is_resident(page) ==> after.entries[page].access_count
                >= state.entries[page].access_count
        }),
{
}

/// Eviction and reload give the bytes back. Let a cached page be neither
/// pinned nor read, and let storage hold its bytes if it is clean. After the
/// page was removed, with its bytes written back if it was dirty, storage
/// holds the bytes that the page had; loading them again succeeds, and the
/// page is then read back as those bytes.
pub proof fn law_round_trip(
    state: PoolState,
    store: Map<PageKeyView, Seq<u8>>,
    key: PageKeyView,
    persisted: bool,
)
    requires
        state.valid(),
        state.remove_page_outcome(key, true) is Ok,
        !state.entries[key].is_dirty() ==> store.contains_key(key) && store[key] == state.bytes_of(
            key,
        ),
    ensures
        ({
            let kept = written_back(store, state, key);
            let evicted = state.after_remove_page(key, true);
            &&& kept.contains_key(key)
            &&& kept[key] == state.bytes_of(key)
            &&& !evicted.is_resident(key)
            &&& evicted.load_page_outcome(key, kept[key].len(), persisted) is Ok
            &&& evicted.after_load_page(key, kept[key], persisted).get_page_outcome(key) matches Ok(
                bytes,
            )
            &&& bytes == state.bytes_of(key)
        }),
{
}

/// Load, eviction and reload give the bytes back. Let storage hold the
/// bytes of a page that is not cached. After the page was loaded with these
/// bytes and removed at once, storage still holds them; loading what storage
/// holds succeeds, and the page is then read back as the bytes first loaded.
pub proof fn law_reload_after_eviction(
    state: PoolState,
    store: Map<PageKeyView, Seq<u8>>,
    key: PageKeyView,
    data: Seq<u8>,
    persisted: bool,
)
    requires
        state.valid(),
        !state.is_resident(key),
        state.load_page_outcome(key, data.len(), persisted) is Ok,
        store.contains_key(key),
        store[key] == data,
    ensures
        ({
            let loaded = state.after_load_page(key, data, persisted);
            let kept = written_back(store, loaded, key);
            let evicted = loaded.after_remove_page(key, true);
            &&& loaded.remove_page_outcome(key, true) is Ok
            &&& kept == store
            &&& !evicted.is_resident(key)
            &&& evicted.load_page_outcome(key, kept[key].len(), persisted) is Ok
            &&& evicted.after_load_page(key, kept[key], persisted).get_page_outcome(key) matches Ok(
                bytes,
            )
            &&& bytes == data
        }),
{
    if state.load_plan(key, data.len()) is Evict {
        lemma_victim_exists(state);
    }
}

/// Replacing the entry of a cached page by one for the same frame keeps a
/// valid pool valid.
proof fn lemma_entry_update_keeps_validity(state: PoolState, key: PageKeyView, entry: PageTableEntry)
    requires
        state.valid(),
        state.is_resident(key),
        entry.frame_index == state.entries[key].frame_index,
    ensures
        state.with_entry(key, entry).valid(),
{
    let after = state.with_entry(key, entry);
    assert forall|frame: usize| frame < after.frames.len() implies #[trigger] after.accounts_for(
        frame,
    ) by {
        assert(state.accounts_for(frame));
        if !state.free.contains(frame) {
            let holder = choose|holder: PageKeyView|
                #![trigger state.entries[holder]]
                state.entries.contains_key(holder) && state.entries[holder].frame_index == frame;
            assert(after.entries.contains_key(holder) && after.entries[holder].frame_index
                == frame);
        }
    }
}

/// Replacing the bytes of a frame by as many bytes keeps a valid pool
/// valid.
proof fn lemma_frame_update_keeps_validity(state: PoolState, frame: usize, bytes: Seq<u8>)
    requires
        state.valid(),
        frame < state.frames.len(),
        bytes.len() == state.page_size,
    ensures
        state.with_frame(frame, bytes).valid(),
{
    let after = state.with_frame(frame, bytes);
    assert forall|other: usize| other < after.frames.len() implies #[trigger] after.accounts_for(
        other,
    ) by {
        assert(state.accounts_for(other));
    }
}

/// Every operation takes a valid pool to a valid pool.
pub proof fn law_operations_keep_the_pool_valid(
    state: PoolState,
    key: PageKeyView,
    offset: usize,
    data: Seq<u8>,
    pinned: bool,
    persisted: bool,
)
    requires
        state.valid(),
    ensures
        state.after_get_page(key).valid(),
        state.after_release_page(key).valid(),
        state.after_mutate_page(key, offset, data).valid(),
        state.after_set_pinned(key, pinned).valid(),
        state.after_load_page(key, data, persisted).valid(),
        state.after_remove_page(key, persisted).valid(),
{
    if state.get_page_outcome(key) is Ok {
        lemma_entry_update_keeps_validity(state, key, state.entries[key].read_locked());
    }
    if state.release_page_outcome(key) is Ok {
        lemma_entry_update_keeps_validity(state, key, state.entries[key].read_unlocked());
    }
    if state.mutate_page_outcome(key, offset, data.len()) is Ok {
        let entry = state.entries[key];
        let written = state.with_frame(
            entry.frame_index,
            splice(state.bytes_of(key), offset as int, data),
        );
        lemma_frame_update_keeps_validity(
            state,
            entry.frame_index,
            splice(state.bytes_of(key), offset as int, data),
        );
        lemma_entry_update_keeps_validity(
            written,
            key,
            PageTableEntry { state: PageState::Dirty, ..entry.accessed() },
        );
    }
    if state.set_pinned_outcome(key, pinned) is Ok {
        lemma_entry_update_keeps_validity(
            state,
            key,
            state.after_set_pinned(key, pinned).entries[key],
        );
    }
    if state.load_page_outcome(key, data.len(), persisted) is Ok {
        lemma_load_keeps_validity(state, key, data, persisted);
    }
    if state.remove_page_outcome(key, persisted) is Ok {
        lemma_remove_keeps_validity(state, key, persisted);
    }
}

/// A load that takes place takes a valid pool to a valid pool.
proof fn lemma_load_keeps_validity(
    state: PoolState,
    key: PageKeyView,
    data: Seq<u8>,
    persisted: bool,
)
    requires
        state.valid(),
        state.load_page_outcome(key, data.len(), persisted) is Ok,
    ensures
        state.after_load_page(key, data, persisted).valid(),
{
    let after = state.after_load_page(key, data, persisted);
    match state.load_plan(key, data.len()) {
        LoadPlanView::Reject(_) => {},
        LoadPlanView::Overwrite => {
            let entry = state.entries[key];
            lemma_frame_update_keeps_validity(state, entry.frame_index, data);
            lemma_entry_update_keeps_validity(
                state.with_frame(entry.frame_index, data),
                key,
                entry.accessed(),
            );
        },
        LoadPlanView::UseFree => {
            let taken = state.free[0];
            let rest = state.free.drop_first();
            assert forall|frame: usize| frame < after.frames.len() implies #[trigger] after.accounts_for(
                frame,
            ) by {
                assert(state.accounts_for(frame));
                if frame != taken && state.free.contains(frame) {
                    let i = choose|i: int| 0 <= i < state.free.len() && state.free[i] == frame;
                    assert(rest[i - 1] == frame);
                } else if frame != taken {
                    let holder = choose|holder: PageKeyView|
                        #![trigger state.entries[holder]]
                        state.entries.contains_key(holder) && state.entries[holder].frame_index
                            == frame;
                    assert(after.entries.contains_key(holder) && after.entries[holder].frame_index
                        == frame);
                }
            }
        },
        LoadPlanView::Evict(victim) => {
            lemma_victim_exists(state);
            let reused = state.entries[victim].frame_index;
            assert forall|frame: usize| frame < after.frames.len() implies #[trigger] after.accounts_for(
                frame,
            ) by {
                assert(state.accounts_for(frame));
                if frame == reused {
                    assert(after.entries.contains_key(key) && after.entries[key].frame_index
                        == frame);
                } else if !state.free.contains(frame) {
                    let holder = choose|holder: PageKeyView|
                        #![trigger state.entries[holder]]
                        state.entries.contains_key(holder) && state.entries[holder].frame_index
                            == frame;
                    assert(after.entries.contains_key(holder) && after.entries[holder].frame_index
                        == frame);
                }
            }
        },
    }
}

/// A removal that takes place takes a valid pool to a valid pool.
proof fn lemma_remove_keeps_validity(state: PoolState, key: PageKeyView, persisted: bool)
    requires
        state.valid(),
        state.remove_page_outcome(key, persisted) is Ok,
    ensures
        state.after_remove_page(key, persisted).valid(),
{
    let after = state.after_remove_page(key, persisted);
    let freed = state.entries[key].frame_index;
    assert forall|frame: usize| frame < after.frames.len() implies #[trigger] after.accounts_for(
        frame,
    ) by {
        assert(state.accounts_for(frame));
        if frame == freed {
            assert(after.free[0] == frame);
        } else if state.free.contains(frame) {
            let i = choose|i: int| 0 <= i < state.free.len() && state.free[i] == frame;
            assert(after.free[i + 1] == frame);
        } else {
            let holder = choose|holder: PageKeyView|
                #![trigger state.entries[holder]]
                state.entries.contains_key(holder) && state.entries[holder].frame_index == frame;
            assert(after.entries.contains_key(holder) && after.entries[holder].frame_index
                == frame);
        }
    }
}

} // verus!
