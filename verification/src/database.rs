//! The top-level database object: it owns the buffer pool over an in-memory
//! backing store. Opening a store from a file and persisting it back is the
//! embedding program's concern; the core works on the bytes.

use vstd::prelude::*;

use vstd::multiset::Multiset;

use crate::buffer_pool::BufferPool;
use crate::eviction::EvictionPolicy;
use crate::config::{BUFFER_POOL_N_FRAMES, LRU_K};
use crate::disk_manager::{zero_page, DiskManager};
use crate::frame::FrameId;
use crate::page::PageId;

verus! {

/// A database over a backing store held in memory.
pub struct Database {
    /// The filename of the database file. None if the database is in memory.
    pub filename: Option<String>,
    /// The buffer pool mediating all page access.
    pub buffer_pool: BufferPool,
}

impl Database {
    /// Opens a database over the given backing-store bytes, with a buffer
    /// pool of `BUFFER_POOL_N_FRAMES` frames: nothing cached, every frame
    /// free, no guard live.
    pub fn from_buffer(data: Vec<u8>) -> (r: Database)
        ensures
            r.filename is None,
            r.buffer_pool.wf(),
            r.buffer_pool.num_frames() == BUFFER_POOL_N_FRAMES,
            r.buffer_pool.mapping() == Map::<PageId, FrameId>::empty(),
            r.buffer_pool.disk() == data@,
            r.buffer_pool.free_count() == BUFFER_POOL_N_FRAMES,
            forall|f: FrameId|
                (f as int) < BUFFER_POOL_N_FRAMES ==> #[trigger] r.buffer_pool.free(f),
            forall|f: FrameId|
                (f as int) < BUFFER_POOL_N_FRAMES ==> #[trigger] r.buffer_pool.bound_page(
                    f,
                ) is None,
            forall|f: FrameId|
                (f as int) < BUFFER_POOL_N_FRAMES ==> (#[trigger] r.buffer_pool.frame(
                    f,
                )).pin_count == 0 && !r.buffer_pool.frame(f).is_dirty && r.buffer_pool.frame(
                    f,
                ).data@ == zero_page(),
            r.buffer_pool.pins() == Multiset::<FrameId>::empty(),
            r.buffer_pool.policy().timestamp() == 0,
            r.buffer_pool.policy().k() == LRU_K,
            forall|g: FrameId| !(#[trigger] r.buffer_pool.policy().tracks(g)),
            forall|g: FrameId| !(#[trigger] r.buffer_pool.policy().evictable(g)),
            r.buffer_pool.pins_headroom(),
    {
        Database {
            filename: None,
            buffer_pool: BufferPool::new(BUFFER_POOL_N_FRAMES, DiskManager::new(data)),
        }
    }
}

} // verus!
