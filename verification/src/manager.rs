//! The buffer pool manager: one pool per registered table, and optionally a
//! default pool that serves every other table.

use vstd::prelude::*;

use crate::buffer_pool::BufferPoolImpl;
use crate::definitions::{ManagerError, TableId};
use crate::pool_state::PoolState;

verus! {

/// The sizes that a manager gives to pools where the caller names none, and
/// whether it keeps a default pool.
#[derive(Clone, Copy, Debug)]
pub struct BufferPoolManagerConfig {
    pub default_page_size: usize,
    pub default_entries_count: usize,
    /// Whether tables without a pool of their own share a default pool.
    pub with_default_pool: bool,
}

impl BufferPoolManagerConfig {
    /// The default sizes are those of a pool that can be built.
    pub open spec fn valid(self) -> bool {
        &&& self.default_page_size > 0
        &&& self.default_entries_count > 0
        &&& self.default_page_size * self.default_entries_count <= usize::MAX
    }
}

/// A manager as contracts see it.
#[verifier::ext_equal]
pub struct ManagerState {
    /// The pool that serves tables without a pool of their own, if one is
    /// kept.
    pub default_pool: Option<PoolState>,
    /// The pools of the registered tables, by table name.
    pub pools: Map<Seq<char>, PoolState>,
}

impl ManagerState {
    /// The pool that serves a table: its own, else the default pool.
    pub open spec fn pool_for(self, table: Seq<char>) -> Option<PoolState> {
        if self.pools.contains_key(table) {
            Some(self.pools[table])
        } else {
            self.default_pool
        }
    }

    /// The state with the pool that serves a table replaced.
    pub open spec fn with_pool_for(self, table: Seq<char>, pool: PoolState) -> ManagerState {
        if self.pools.contains_key(table) {
            ManagerState { pools: self.pools.insert(table, pool), ..self }
        } else {
            ManagerState { default_pool: Some(pool), ..self }
        }
    }
}

/// A manager built from its configuration.
pub fn create_default_buffer_pool_manager(config: BufferPoolManagerConfig) -> (manager:
    BufferPoolManagerImpl)
    requires
        config.valid(),
    ensures
        manager.wf(),
        manager.config() == config,
        manager@ == BufferPoolManagerImpl::initial(config),
{
    BufferPoolManagerImpl::new(config)
}

/// The pools of the registered tables and the default pool, if one is kept.
pub struct BufferPoolManagerImpl {
    config: BufferPoolManagerConfig,
    default_buffer_pool: Option<BufferPoolImpl>,
    unique_buffer_pools: Vec<(TableId, BufferPoolImpl)>,
}

/// The pools of the registered tables, in the order of their registration.
type PoolList = Seq<(TableId, BufferPoolImpl)>;

/// Whether the pool at place `i` is that of `table`.
spec fn held_at(pools: PoolList, i: int, table: Seq<char>) -> bool {
    0 <= i < pools.len() && pools[i].0@ == table
}

/// Where the pool of a table stands, if the table is registered.
spec fn position_in(pools: PoolList, table: Seq<char>) -> Option<int> {
    if exists|i: int| held_at(pools, i, table) {
        Some(choose|i: int| held_at(pools, i, table))
    } else {
        None
    }
}

/// No table is registered twice.
spec fn distinct_tables(pools: PoolList) -> bool {
    forall|i: int, j: int|
        0 <= i < j < pools.len() ==> (#[trigger] pools[i]).0@ != (#[trigger] pools[j]).0@
}

/// The pools by table name.
spec fn pools_by_table(pools: PoolList) -> Map<Seq<char>, PoolState> {
    Map::new(
        |table: Seq<char>| position_in(pools, table) is Some,
        |table: Seq<char>| pools[position_in(pools, table).unwrap()].1@,
    )
}

/// Where no table is registered twice, a table stands where it is found.
proof fn lemma_position(pools: PoolList, i: int)
    requires
        distinct_tables(pools),
        0 <= i < pools.len(),
    ensures
        position_in(pools, pools[i].0@) == Some(i),
{
    let table = pools[i].0@;
    assert(held_at(pools, i, table));
}

/// Two lists that register the same tables at the same places find every
/// table at the same place.
proof fn lemma_same_tables(before: PoolList, after: PoolList)
    requires
        distinct_tables(before),
        after.len() == before.len(),
        forall|i: int| 0 <= i < before.len() ==> (#[trigger] after[i]).0@ == before[i].0@,
    ensures
        distinct_tables(after),
        forall|table: Seq<char>| #[trigger] position_in(after, table) == position_in(before, table),
{
    assert forall|table: Seq<char>| #[trigger]
        position_in(after, table) == position_in(before, table) by {
        if position_in(before, table) is Some {
            let i = position_in(before, table).unwrap();
            lemma_position(after, i);
        } else if position_in(after, table) is Some {
            let i = position_in(after, table).unwrap();
            assert(held_at(before, i, table));
        }
    }
}

impl View for BufferPoolManagerImpl {
    type V = ManagerState;

    closed spec fn view(&self) -> ManagerState {
        ManagerState {
            default_pool: match self.default_buffer_pool {
                Some(pool) => Some(pool@),
                None => None,
            },
            pools: pools_by_table(self.unique_buffer_pools@),
        }
    }
}

impl BufferPoolManagerImpl {
    /// Every pool is well-formed, no table is registered twice, and the
    /// default sizes are those of a pool that can be built.
    pub closed spec fn wf(&self) -> bool {
        &&& self.config.valid()
        &&& self.default_buffer_pool matches Some(pool) ==> pool.wf()
        &&& forall|i: int|
            0 <= i < self.unique_buffer_pools@.len() ==> (#[trigger] self.unique_buffer_pools@[i]).1.wf()
        &&& distinct_tables(self.unique_buffer_pools@)
    }

    /// The configuration that the manager was built with.
    pub closed spec fn spec_config(&self) -> BufferPoolManagerConfig {
        self.config
    }

    /// The configuration that the manager was built with.
    #[verifier::when_used_as_spec(spec_config)]
    pub fn config(&self) -> (config: BufferPoolManagerConfig)
        ensures
            config == self.spec_config(),
    {
        self.config
    }

    /// The state of a new manager: no table is registered, and the default
    /// pool, if one is kept, is blank and of the default sizes.
    pub open spec fn initial(config: BufferPoolManagerConfig) -> ManagerState {
        ManagerState {
            default_pool: if config.with_default_pool {
                Some(PoolState::empty(config.default_page_size, config.default_entries_count))
            } else {
                None
            },
            pools: Map::empty(),
        }
    }

    /// A manager without registered tables. It keeps a blank default pool of
    /// the default sizes if the configuration says so.
    pub fn new(config: BufferPoolManagerConfig) -> (manager: Self)
        requires
            config.valid(),
        ensures
            manager.wf(),
            manager.config() == config,
            manager@ == Self::initial(config),
    {
        let default_buffer_pool: Option<BufferPoolImpl> = if config.with_default_pool {
            Some(BufferPoolImpl::new(config.default_page_size, config.default_entries_count))
        } else {
            None
        };
        let manager = Self { config, default_buffer_pool, unique_buffer_pools: Vec::new() };
        manager
    }

    /// Where the pool of a table stands, if the table is registered.
    fn find(&self, table_id: &TableId) -> (found: Option<usize>)
        requires
            self.wf(),
        ensures
            match found {
                Some(i) => position_in(self.unique_buffer_pools@, table_id@) == Some(i as int) && i
                    < self.unique_buffer_pools@.len(),
                None => position_in(self.unique_buffer_pools@, table_id@) is None,
            },
    {
        let mut index: usize = 0;
        while index < self.unique_buffer_pools.len()
            invariant
                index <= self.unique_buffer_pools@.len(),
                forall|i: int| 0 <= i < index ==> !held_at(self.unique_buffer_pools@, i, table_id@),
                self.wf(),
            decreases self.unique_buffer_pools@.len() - index,
        {
            if self.unique_buffer_pools[index].0.same_table(table_id) {
                proof {
                    lemma_position(self.unique_buffer_pools@, index as int);
                }
                return Some(index);
            }
            index = index + 1;
        }
        None
    }

    /// Whether the table has a pool of its own.
    pub fn contains_pool(&self, table_id: &TableId) -> (registered: bool)
        requires
            self.wf(),
        ensures
            registered == self@.pools.contains_key(table_id@),
    {
        self.find(table_id).is_some()
    }

    /// Registers a table with a blank pool of its own. Where a size is not
    /// given, the default size is taken.
    pub fn create_pool(
        &mut self,
        table_id: TableId,
        page_size: Option<usize>,
        entries_count: Option<usize>,
    ) -> (outcome: Result<(), ManagerError>)
        requires
            old(self).wf(),
            Self::chosen_size(page_size, old(self).config().default_page_size) > 0,
            Self::chosen_size(entries_count, old(self).config().default_entries_count) > 0,
            Self::chosen_size(page_size, old(self).config().default_page_size) * Self::chosen_size(
                entries_count,
                old(self).config().default_entries_count,
            ) <= usize::MAX,
        ensures
            final(self).wf(),
            final(self).config() == old(self).config(),
            match outcome {
                Ok(()) => !old(self)@.pools.contains_key(table_id@),
                Err(error) => old(self)@.pools.contains_key(table_id@) && error
                    == ManagerError::CreateConflict,
            },
            final(self)@ == (if old(self)@.pools.contains_key(table_id@) {
                old(self)@
            } else {
                ManagerState {
                    pools: old(self)@.pools.insert(
                        table_id@,
                        PoolState::empty(
                            Self::chosen_size(page_size, old(self).config().default_page_size),
                            Self::chosen_size(
                                entries_count,
                                old(self).config().default_entries_count,
                            ),
                        ),
                    ),
                    ..old(self)@
                }
            }),
    {
        if self.find(&table_id).is_some() {
            return Err(ManagerError::CreateConflict);
        }
        let page_size: usize = match page_size {
            Some(size) => size,
            None => self.config.default_page_size,
        };
        let entries_count: usize = match entries_count {
            Some(count) => count,
            None => self.config.default_entries_count,
        };
        let pool: BufferPoolImpl = BufferPoolImpl::new(page_size, entries_count);
        let ghost table = table_id@;
        self.unique_buffer_pools.push((table_id, pool));
        proof {
            let before = old(self).unique_buffer_pools@;
            let after = self.unique_buffer_pools@;
            let last = after.len() - 1;
            assert forall|i: int, j: int| 0 <= i < j < after.len() implies (#[trigger] after[i]).0@
                != (#[trigger] after[j]).0@ by {
                if j == last {
                    assert(!held_at(before, i, table));
                }
            }
            lemma_position(after, last);
            assert forall|other: Seq<char>| other != table implies position_in(after, other)
                == position_in(before, other) by {
                if position_in(before, other) is Some {
                    let i = position_in(before, other).unwrap();
                    lemma_position(after, i);
                } else if position_in(after, other) is Some {
                    let i = position_in(after, other).unwrap();
                    assert(held_at(before, i, other));
                }
            }
        }
        Ok(())
    }

    /// The size that a pool gets: the one given, else the default.
    pub open spec fn chosen_size(given: Option<usize>, default: usize) -> usize {
        match given {
            Some(size) => size,
            None => default,
        }
    }

    /// The pool that serves a table: the table's own, else the default
    /// pool.
    pub fn get_pool(&self, table_id: &TableId) -> (outcome: Result<&BufferPoolImpl, ManagerError>)
        requires
            self.wf(),
        ensures
            match outcome {
                Ok(pool) => pool.wf() && self@.pool_for(table_id@) == Some(pool@),
                Err(error) => error == ManagerError::NotFound && self@.pool_for(table_id@) is None,
            },
    {
        match self.find(table_id) {
            Some(index) => Ok(&self.unique_buffer_pools[index].1),
            None => {
                match &self.default_buffer_pool {
                    Some(pool) => Ok(pool),
                    None => Err(ManagerError::NotFound),
                }
            },
        }
    }

    /// The pool that serves a table, to be worked on. Whatever is done to
    /// the pool is done to the manager's pool for that table.
    pub fn get_pool_mut(&mut self, table_id: &TableId) -> (outcome: Result<
        &mut BufferPoolImpl,
        ManagerError,
    >)
        requires
            old(self).wf(),
        ensures
            match outcome {
                Ok(pool) => {
                    &&& pool.wf()
                    &&& old(self)@.pool_for(table_id@) == Some(pool@)
                    &&& final(self).config() == old(self).config()
                    &&& final(self)@ == old(self)@.with_pool_for(table_id@, final(pool)@)
                    &&& final(pool).wf() ==> final(self).wf()
                },
                Err(error) => {
                    &&& error == ManagerError::NotFound
                    &&& old(self)@.pool_for(table_id@) is None
                    &&& *final(self) == *old(self)
                },
            },
    {
        match self.find(table_id) {
            Some(index) => {
                let pool = &mut self.unique_buffer_pools[index].1;
                proof {
                    let before = old(self).unique_buffer_pools@;
                    let after = after_borrow(self.unique_buffer_pools)@;
                    lemma_same_tables(before, after);
                }
                Ok(pool)
            },
            None => {
                match &mut self.default_buffer_pool {
                    Some(pool) => Ok(pool),
                    None => Err(ManagerError::NotFound),
                }
            },
        }
    }
}

} // verus!
