//! A page cache for an embedded storage engine.
//!
//! Fixed-size pages of tables are kept in the frames of a contiguous buffer.
//! A page table records which page occupies which frame, how often each page
//! was accessed, how many pins and read locks it carries and whether it is
//! dirty; free frames are linked into a free list. When no frame is free,
//! the unpinned page that was accessed least is evicted, after its bytes
//! were handed to the storage handler if it is dirty. A manager keeps one
//! pool per registered table and, optionally, a default pool for the rest.
//!
//! A pool is a value with one owner. What a pool shared between threads
//! settles by waiting is settled here by an answer: an operation that finds
//! the frame it needs held by readers changes nothing and returns `Busy`.
//!
//! Every operation is specified as a function on `pool_state::PoolState`,
//! and `laws` proves what follows for all pools.

pub mod buffer_pool;
pub mod contracts;
pub mod definitions;
pub mod frame_buffer;
pub mod key_map;
pub mod laws;
pub mod manager;
pub mod page_table;
pub mod pool_state;
