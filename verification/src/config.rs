use vstd::prelude::*;

verus! {

/// The size (in bytes) of a page in the buffer pool.
pub const PAGE_SIZE: usize = 4096;

/// The number of frames in the buffer pool.
/// The more frames, the more pages we can cache in memory. Increasing this value
/// will generally improve performance, but will also increase memory usage.
pub const BUFFER_POOL_N_FRAMES: usize = 69;

/// The number of historical accesses the eviction policy tracks per frame.
pub const LRU_K: usize = 2;

/// The page size is required to be a multiple of 8.
pub proof fn page_size_is_multiple_of_eight()
    ensures
        PAGE_SIZE % 8 == 0,
{
}

} // verus!
