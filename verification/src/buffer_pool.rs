//! The buffer pool: a fixed pool of in-memory frames, a page table mapping
//! page ids to frame slots, a free list, an LRU-K eviction policy, and a
//! disk scheduler for the backing-store I/O. Pages are fetched on miss and
//! handed out through pinning guards.

use vstd::prelude::*;

use std::collections::HashMap;

use vstd::multiset::Multiset;

use crate::config::{LRU_K, PAGE_SIZE};
use crate::disk_manager::{
    covers_page, page_at, page_in_bounds, store_after_write, zero_page, DiskManager,
};
use crate::disk_scheduler::{DiskScheduler, ScheduleOutcome};
use crate::errors::BufferPoolError;
use crate::eviction::EvictionPolicy;
use crate::frame::{Frame, FrameId, PageReadGuard, PageWriteGuard};
use crate::lruk_eviction::LRUKEvictionPolicy;
use crate::page::PageId;

verus! {

/// The buffer pool. All entries of the page table are loaded in memory;
/// a page id maps to the frame slot currently holding that page's bytes.
pub struct BufferPool {
    /// The in-memory frames, allocated once for the pool's lifetime.
    frames: Vec<Frame>,
    /// Maps page id to buffer pool frame id.
    page_table: HashMap<PageId, FrameId>,
    /// For each frame, the page whose latest load filled it, if any.
    page_of: Vec<Option<PageId>>,
    /// The frames holding no valid page; obtaining one is O(1).
    free_list: Vec<FrameId>,
    /// The disk scheduler handling the underlying I/O operations.
    disk_scheduler: DiskScheduler,
    /// The eviction policy consulted when the pool is full.
    eviction_policy: LRUKEvictionPolicy,
    /// One entry per live guard, counting the pins of each frame.
    live_pins: Ghost<Multiset<FrameId>>,
}

impl BufferPool {
    /// The number of frame slots.
    pub closed spec fn num_frames(&self) -> int {
        self.frames@.len() as int
    }

    /// The frame in slot `f`.
    pub closed spec fn frame(&self, f: FrameId) -> Frame {
        self.frames@[f as int]
    }

    /// The page table: which frame holds each cached page.
    pub closed spec fn mapping(&self) -> Map<PageId, FrameId> {
        self.page_table@
    }

    /// The page whose latest load filled frame `f`, if any.
    pub closed spec fn bound_page(&self, f: FrameId) -> Option<PageId> {
        self.page_of@[f as int]
    }

    /// Whether frame `f` stands in the free list.
    pub closed spec fn free(&self, f: FrameId) -> bool {
        self.free_list@.contains(f)
    }

    /// How many frames stand in the free list.
    pub closed spec fn free_count(&self) -> int {
        self.free_list@.len() as int
    }

    /// The bytes of the backing store behind the scheduler.
    pub closed spec fn disk(&self) -> Seq<u8> {
        self.disk_scheduler@
    }

    /// The eviction policy's state.
    pub closed spec fn policy(&self) -> LRUKEvictionPolicy {
        self.eviction_policy
    }

    /// One entry per live guard: the multiset of pinned frames.
    pub closed spec fn pins(&self) -> Multiset<FrameId> {
        self.live_pins@
    }

    /// Frames are page-sized and the reverse map covers every slot.
    pub closed spec fn frames_wf(&self) -> bool {
        &&& self.frames@.len() == self.page_of@.len()
        &&& self.frames@.len() <= 65536
        &&& forall|i: int| 0 <= i < self.frames@.len() ==> (#[trigger] self.frames@[i]).wf()
    }

    /// The page table and the per-frame reverse map agree exactly: a frame
    /// holds page `p` if and only if the table maps `p` to it.
    pub closed spec fn table_coherent(&self) -> bool {
        &&& forall|p: PageId| #[trigger]
            self.page_table@.contains_key(p) ==> (self.page_table@[p] as int)
                < self.frames@.len() && self.page_of@[self.page_table@[p] as int] == Some(p)
                && page_in_bounds(p)
        &&& forall|i: int|
            0 <= i < self.page_of@.len() && (#[trigger] self.page_of@[i]) is Some
                ==> self.page_table@.contains_key(self.page_of@[i]->0)
                && self.page_table@[self.page_of@[i]->0] as int == i
    }

    /// A frame id appears in the page table or in the free list, never in
    /// both; free frames are unpinned and clean.
    pub closed spec fn free_list_wf(&self) -> bool {
        &&& forall|j: int|
            0 <= j < self.free_list@.len() ==> ((#[trigger] self.free_list@[j]) as int)
                < self.frames@.len()
        &&& forall|j1: int, j2: int|
            #![trigger self.free_list@[j1], self.free_list@[j2]]
            0 <= j1 < j2 < self.free_list@.len() ==> self.free_list@[j1] != self.free_list@[j2]
        &&& forall|j: int|
            0 <= j < self.free_list@.len() ==> self.page_of@[(#[trigger] self.free_list@[j])
                as int] is None && self.frames@[self.free_list@[j] as int].pin_count == 0
                && !self.frames@[self.free_list@[j] as int].is_dirty
        &&& forall|i: int|
            0 <= i < self.page_of@.len() && (#[trigger] self.page_of@[i]) is None
                ==> self.free_list@.contains(i as FrameId)
    }

    /// The policy tracks exactly the frames bound to a page, and a pinned
    /// frame is never evictable.
    pub closed spec fn policy_coherent(&self) -> bool {
        &&& self.eviction_policy.wf()
        &&& self.eviction_policy.k() == LRU_K as int
        &&& forall|f: FrameId| #[trigger]
            self.eviction_policy.tracks(f) ==> (f as int) < self.frames@.len() && self.page_of@[
                f as int] is Some
        &&& forall|i: int|
            0 <= i < self.page_of@.len() && (#[trigger] self.page_of@[i]) is Some
                ==> self.eviction_policy.tracks(i as FrameId)
        &&& forall|i: int|
            0 <= i < self.frames@.len() && (#[trigger] self.frames@[i]).pin_count > 0
                ==> !self.eviction_policy.evictable(i as FrameId)
    }

    /// Each frame's pin count equals the number of live guards on it, and
    /// only frames bound to a page are pinned.
    pub closed spec fn pins_coherent(&self) -> bool {
        &&& forall|i: int|
            0 <= i < self.frames@.len() ==> (#[trigger] self.frames@[i]).pin_count as nat
                == self.live_pins@.count(i as FrameId)
        &&& forall|i: int|
            0 <= i < self.frames@.len() && (#[trigger] self.frames@[i]).pin_count > 0
                ==> self.page_of@[i] is Some
    }

    /// A frame whose latest load was for page `p` and whose bytes were not
    /// since changed holds exactly the store's bytes for `p`.
    pub closed spec fn clean_frames_match_disk(&self) -> bool {
        forall|i: int|
            0 <= i < self.frames@.len() && (#[trigger] self.page_of@[i]) is Some
                && !self.frames@[i].is_dirty ==> covers_page(self.disk_scheduler@, self.page_of@[i]->0)
                && self.frames@[i].data@ == page_at(self.disk_scheduler@, self.page_of@[i]->0)
    }

    /// The pool's invariant.
    pub closed spec fn wf(&self) -> bool {
        &&& self.frames_wf()
        &&& self.table_coherent()
        &&& self.free_list_wf()
        &&& self.policy_coherent()
        &&& self.pins_coherent()
        &&& self.clean_frames_match_disk()
    }

    /// Whether a fetch of `page_id` is owed success: the page is cached, or
    /// a free frame exists, or some frame can be evicted.
    pub open spec fn fetchable(&self, page_id: PageId) -> bool {
        self.mapping().contains_key(page_id) || self.free_count() > 0
            || self.policy().evictable_count() > 0
    }

    /// Machine limit: every pin counter can still grow.
    pub open spec fn pins_headroom(&self) -> bool {
        forall|f: FrameId|
            (f as int) < self.num_frames() ==> (#[trigger] self.frame(f)).pin_count < u32::MAX
    }
}

/// Nothing observable about the pool changed.
pub open spec fn pool_unchanged(pre: BufferPool, post: BufferPool) -> bool {
    &&& post.num_frames() == pre.num_frames()
    &&& forall|g: FrameId|
        (g as int) < pre.num_frames() ==> #[trigger] post.frame(g) == pre.frame(g)
    &&& post.mapping() == pre.mapping()
    &&& forall|g: FrameId| #[trigger] post.bound_page(g) == pre.bound_page(g)
    &&& forall|g: FrameId| #[trigger] post.free(g) == pre.free(g)
    &&& post.free_count() == pre.free_count()
    &&& post.disk() == pre.disk()
    &&& post.policy() == pre.policy()
    &&& post.pins() == pre.pins()
}

/// The store after writing back the victim frame's bytes, as the fetch path
/// does before reusing a dirty frame; a clean or free frame needs no write.
pub open spec fn flushed_disk(pre: BufferPool, f: FrameId) -> Seq<u8> {
    if pre.bound_page(f) is Some && pre.frame(f).is_dirty {
        store_after_write(pre.disk(), pre.bound_page(f)->0, pre.frame(f).data@)
    } else {
        pre.disk()
    }
}

/// The bytes a load of `page_id` yields over store `d`: the page's bytes if
/// the store covers them, a zeroed page otherwise.
pub open spec fn loaded_page_bytes(d: Seq<u8>, page_id: PageId) -> Seq<u8> {
    if covers_page(d, page_id) {
        page_at(d, page_id)
    } else {
        zero_page()
    }
}

/// The store after a load of `page_id`: unchanged if it covers the page,
/// extended with a zeroed page at the page's offset otherwise.
pub open spec fn disk_after_load(d: Seq<u8>, page_id: PageId) -> Seq<u8> {
    if covers_page(d, page_id) {
        d
    } else {
        store_after_write(d, page_id, zero_page())
    }
}

/// What the eviction policy looks like after a fetch pinned frame `f`: one
/// access recorded for `f` at the old timestamp, `f` non-evictable, every
/// other frame untouched. On a miss the frame's history starts fresh.
pub open spec fn fetch_policy_post(
    pre: LRUKEvictionPolicy,
    post: LRUKEvictionPolicy,
    f: FrameId,
    hit: bool,
) -> bool {
    &&& post.wf()
    &&& post.k() == pre.k()
    &&& post.timestamp() == pre.timestamp() + 1
    &&& post.tracks(f)
    &&& !post.evictable(f)
    &&& post.history(f) == if hit {
        (if pre.history(f).len() == pre.k() {
            pre.history(f).skip(1)
        } else {
            pre.history(f)
        }).push(pre.timestamp())
    } else {
        seq![pre.timestamp()]
    }
    &&& forall|g: FrameId| g != f ==> #[trigger] post.tracks(g) == pre.tracks(g)
    &&& forall|g: FrameId|
        g != f && pre.tracks(g) ==> #[trigger] post.history(g) == pre.history(g)
    &&& forall|g: FrameId| g != f ==> #[trigger] post.evictable(g) == pre.evictable(g)
    &&& post.evictable_count() as int == pre.evictable_count() as int - (if pre.evictable(f) {
        1int
    } else {
        0int
    })
}

/// What a successful fetch of `page_id` in frame `f` did to the pool.
///
/// On a hit nothing moves: the frame gains a pin (and the dirty flag in
/// write mode). On a miss the frame comes from the free list or from the
/// policy's choice of victim; a dirty victim's bytes are first written back
/// to its old page, the old binding is dropped, and the frame is filled from
/// the store, reading past the store's end as a zeroed page.
pub open spec fn fetch_post(
    pre: BufferPool,
    post: BufferPool,
    page_id: PageId,
    f: FrameId,
    write_mode: bool,
) -> bool {
    let hit = pre.mapping().contains_key(page_id);
    let d1 = flushed_disk(pre, f);
    &&& (f as int) < pre.num_frames()
    &&& post.num_frames() == pre.num_frames()
    &&& post.mapping().contains_key(page_id) && post.mapping()[page_id] == f
    &&& post.bound_page(f) == Some(page_id)
    &&& fetch_policy_post(pre.policy(), post.policy(), f, hit)
    &&& post.pins() == pre.pins().insert(f)
    &&& post.free_count() == pre.free_count() - (if !hit && pre.free(f) {
        1int
    } else {
        0int
    })
    &&& forall|g: FrameId|
        g != f && (g as int) < pre.num_frames() ==> #[trigger] post.frame(g) == pre.frame(g)
    &&& if hit {
        &&& f == pre.mapping()[page_id]
        &&& post.mapping() == pre.mapping()
        &&& post.disk() == pre.disk()
        &&& post.frame(f).data == pre.frame(f).data
        &&& post.frame(f).pin_count == pre.frame(f).pin_count + 1
        &&& post.frame(f).is_dirty == (pre.frame(f).is_dirty || write_mode)
        &&& forall|g: FrameId| #[trigger] post.free(g) == pre.free(g)
    } else {
        &&& pre.free(f) || (pre.policy().evictable(f) && pre.bound_page(f) is Some && forall|
            g: FrameId,
        |
            #[trigger] pre.policy().evictable(g) && g != f ==> !pre.policy().preferred(g, f))
        &&& post.mapping() == if pre.bound_page(f) is Some {
            pre.mapping().remove(pre.bound_page(f)->0).insert(page_id, f)
        } else {
            pre.mapping().insert(page_id, f)
        }
        &&& post.disk() == disk_after_load(d1, page_id)
        &&& post.frame(f).data@ == loaded_page_bytes(d1, page_id)
        &&& post.frame(f).pin_count == 1
        &&& post.frame(f).is_dirty == write_mode
        &&& forall|g: FrameId| g != f ==> #[trigger] post.free(g) == pre.free(g)
        &&& !post.free(f)
    }
}

/// What releasing a guard on frame `f` did to the pool: one pin went away,
/// and nothing else moved; once the last pin is gone the frame is evictable.
pub open spec fn release_post(pre: BufferPool, post: BufferPool, f: FrameId) -> bool {
    &&& post.num_frames() == pre.num_frames()
    &&& post.mapping() == pre.mapping()
    &&& post.disk() == pre.disk()
    &&& post.pins() == pre.pins().remove(f)
    &&& post.frame(f).pin_count == pre.frame(f).pin_count - 1
    &&& post.frame(f).data == pre.frame(f).data
    &&& post.frame(f).is_dirty == pre.frame(f).is_dirty
    &&& forall|g: FrameId|
        g != f && (g as int) < pre.num_frames() ==> #[trigger] post.frame(g) == pre.frame(g)
    &&& forall|g: FrameId| #[trigger] post.bound_page(g) == pre.bound_page(g)
    &&& forall|g: FrameId| #[trigger] post.free(g) == pre.free(g)
    &&& post.free_count() == pre.free_count()
    &&& post.policy().timestamp() == pre.policy().timestamp()
    &&& post.policy().evictable(f) == (pre.frame(f).pin_count == 1)
    &&& post.policy().evictable_count() as int == pre.policy().evictable_count() as int + (if pre.frame(
        f,
    ).pin_count == 1 {
        1int
    } else {
        0int
    })
    &&& forall|g: FrameId| #[trigger] post.policy().tracks(g) == pre.policy().tracks(g)
    &&& forall|g: FrameId|
        pre.policy().tracks(g) ==> #[trigger] post.policy().history(g) == pre.policy().history(g)
    &&& forall|g: FrameId|
        g != f ==> #[trigger] post.policy().evictable(g) == pre.policy().evictable(g)
}

impl BufferPool {
    /// Creates a buffer pool with `pool_size` zeroed frames over the given
    /// backing store: the free list holds every frame, the page table is
    /// empty, and an LRU-K policy with depth `LRU_K` is installed.
    pub fn new(pool_size: usize, disk: DiskManager) -> (r: BufferPool)
        requires
            pool_size <= 65536,
        ensures
            r.wf(),
            r.num_frames() == pool_size,
            r.mapping() == Map::<PageId, FrameId>::empty(),
            r.disk() == disk@,
            r.free_count() == pool_size,
            forall|f: FrameId| (f as int) < pool_size ==> #[trigger] r.free(f),
            forall|f: FrameId| (f as int) < pool_size ==> #[trigger] r.bound_page(f) is None,
            forall|f: FrameId|
                (f as int) < pool_size ==> (#[trigger] r.frame(f)).pin_count == 0 && !r.frame(
                    f,
                ).is_dirty && r.frame(f).data@ == zero_page(),
            r.pins() == Multiset::<FrameId>::empty(),
            r.policy().timestamp() == 0,
            r.policy().k() == LRU_K,
            forall|g: FrameId| !(#[trigger] r.policy().tracks(g)),
            forall|g: FrameId| !(#[trigger] r.policy().evictable(g)),
            r.pins_headroom(),
    {
        let mut frames: Vec<Frame> = Vec::with_capacity(pool_size);
        let mut page_of: Vec<Option<PageId>> = Vec::with_capacity(pool_size);
        let mut free_list: Vec<FrameId> = Vec::with_capacity(pool_size);
        let mut i: usize = 0;
        while i < pool_size
            invariant
                pool_size <= 65536,
                i <= pool_size,
                frames@.len() == i,
                page_of@.len() == i,
                free_list@.len() == i,
                forall|j: int| 0 <= j < i ==> (#[trigger] frames@[j]).wf(),
                forall|j: int| 0 <= j < i ==> (#[trigger] frames@[j]).pin_count == 0,
                forall|j: int| 0 <= j < i ==> !(#[trigger] frames@[j]).is_dirty,
                forall|j: int| 0 <= j < i ==> (#[trigger] frames@[j]).data@ == zero_page(),
                forall|j: int| 0 <= j < i ==> (#[trigger] page_of@[j]) is None,
                forall|j: int| 0 <= j < i ==> (#[trigger] free_list@[j]) as int == j,
            decreases pool_size - i,
        {
            let mut data: Vec<u8> = Vec::with_capacity(PAGE_SIZE);
            let mut b: usize = 0;
            while b < PAGE_SIZE
                invariant
                    b <= PAGE_SIZE,
                    data@.len() == b,
                    forall|j: int| 0 <= j < b ==> data@[j] == 0u8,
                decreases PAGE_SIZE - b,
            {
                data.push(0u8);
                b = b + 1;
            }
            proof {
                assert(data@ =~= zero_page());
            }
            frames.push(Frame::new(data));
            page_of.push(None);
            free_list.push(i as FrameId);
            i = i + 1;
        }
        let r = BufferPool {
            frames,
            page_table: HashMap::new(),
            page_of,
            free_list,
            disk_scheduler: DiskScheduler::new(disk),
            eviction_policy: LRUKEvictionPolicy::new(LRU_K, pool_size),
            live_pins: Ghost(Multiset::empty()),
        };
        proof {
            assert forall|i2: int|
                0 <= i2 < r.page_of@.len() && (#[trigger] r.page_of@[i2]) is None implies r
                .free_list@.contains(i2 as FrameId) by {
                assert(r.free_list@[i2] == i2 as FrameId);
            }
            assert forall|f: FrameId| (f as int) < pool_size implies #[trigger] r.free(f) by {
                assert(r.free_list@[f as int] == f);
            }
        }
        r
    }

    /// The number of pages currently cached.
    pub fn len(&self) -> (r: usize)
        ensures
            r == self.mapping().len(),
    {
        self.page_table.len()
    }

    /// Whether no page is currently cached.
    pub fn is_empty(&self) -> (r: bool)
        ensures
            r == self.mapping().is_empty(),
    {
        self.page_table.is_empty()
    }

    /// The backing store's current bytes, for persisting them elsewhere.
    pub fn disk_bytes(&self) -> (r: &Vec<u8>)
        ensures
            r@ == self.disk(),
    {
        self.disk_scheduler.bytes()
    }

    /// How many accesses the eviction policy has recorded so far; each
    /// fetch records one. The fetch functions ask for headroom on this
    /// counter.
    pub fn access_count(&self) -> (r: u64)
        ensures
            r == self.policy().timestamp(),
    {
        self.eviction_policy.get_timestamp()
    }

    /// Pops a frame from the free list, or asks the policy for a victim;
    /// a dirty victim's bytes are written back to its old page before the
    /// old binding is dropped.
    #[verifier::rlimit(100)]
    #[verifier::spinoff_prover]
    fn try_get_free_frame(&mut self) -> (r: Option<FrameId>)
        requires
            old(self).wf(),
        ensures
            r is None ==> {
                &&& final(self).frames@ == old(self).frames@
                &&& final(self).page_table@ == old(self).page_table@
                &&& final(self).page_of@ == old(self).page_of@
                &&& final(self).free_list@ == old(self).free_list@
                &&& final(self).disk_scheduler@ == old(self).disk_scheduler@
                &&& final(self).eviction_policy == old(self).eviction_policy
                &&& final(self).live_pins == old(self).live_pins
                &&& old(self).free_count() == 0
                &&& old(self).policy().evictable_count() == 0
            },
            r is Some ==> ({
                let f = r->0;
                &&& (f as int) < old(self).frames@.len()
                &&& final(self).frames@ == old(self).frames@
                &&& final(self).live_pins == old(self).live_pins
                &&& final(self).frames@[f as int].pin_count == 0
                &&& final(self).page_of@ == old(self).page_of@.update(f as int, Option::None)
                &&& final(self).free_list@.len() as int == if old(self).free_count() > 0 {
                    old(self).free_list@.len() as int - 1
                } else {
                    old(self).free_list@.len() as int
                }
                &&& !final(self).free_list@.contains(f)
                &&& forall|g: FrameId|
                    g != f ==> #[trigger] final(self).free_list@.contains(g) == old(self).free_list@.contains(g)
                &&& forall|j: int|
                    0 <= j < final(self).free_list@.len() ==> old(self).free_list@.contains(
                        #[trigger] final(self).free_list@[j],
                    )
                &&& forall|j1: int, j2: int|
                    #![trigger final(self).free_list@[j1], final(self).free_list@[j2]]
                    0 <= j1 < j2 < final(self).free_list@.len() ==> final(self).free_list@[j1]
                        != final(self).free_list@[j2]
            }),
            r is Some && old(self).free_count() > 0 ==> ({
                let f = r->0;
                &&& old(self).free(f)
                &&& final(self).page_table@ == old(self).page_table@
                &&& final(self).disk_scheduler@ == old(self).disk_scheduler@
                &&& final(self).eviction_policy == old(self).eviction_policy
                &&& old(self).page_of@[f as int] is None
            }),
            r is Some && old(self).free_count() == 0 ==> old(self).policy().evictable(r->0),
            r is Some && old(self).free_count() == 0 ==> forall|g: FrameId|
                #[trigger] old(self).policy().evictable(g) && g != r->0 ==> !old(self).policy().preferred(g, r->0),
            r is Some && old(self).free_count() == 0 ==> old(self).bound_page(r->0) is Some,
            r is Some && old(self).free_count() == 0 ==> final(self).page_table@ == old(self).page_table@.remove(old(self).bound_page(r->0)->0),
            r is Some && old(self).free_count() == 0 ==> final(self).disk_scheduler@
                == flushed_disk(*old(self), r->0),
            r is Some && old(self).free_count() == 0 ==> !final(self).eviction_policy.tracks(
                r->0,
            ),
            r is Some && old(self).free_count() == 0 ==> forall|g: FrameId|
                g != r->0 ==> #[trigger] final(self).eviction_policy.tracks(g) == old(self).eviction_policy.tracks(g),
            r is Some && old(self).free_count() == 0 ==> forall|g: FrameId|
                g != r->0 && old(self).eviction_policy.tracks(g) ==> #[trigger] final(self).eviction_policy.history(g) == old(self).eviction_policy.history(g),
            r is Some && old(self).free_count() == 0 ==> forall|g: FrameId|
                g != r->0 ==> #[trigger] final(self).eviction_policy.evictable(g) == old(self).eviction_policy.evictable(g),
            r is Some && old(self).free_count() == 0 ==> final(self).eviction_policy.wf(),
            r is Some && old(self).free_count() == 0 ==> final(self).eviction_policy.k() == old(self).eviction_policy.k(),
            r is Some && old(self).free_count() == 0 ==> final(self).eviction_policy.timestamp()
                == old(self).eviction_policy.timestamp(),
            r is Some && old(self).free_count() == 0 ==> final(self).eviction_policy.evictable_count() + 1 == old(self).eviction_policy.evictable_count(),
    {
        let popped = self.free_list.pop();
        match popped {
            Some(f) => {
                proof {
                    let s = old(self).free_list@;
                    assert(s.contains(f)) by {
                        assert(s[s.len() - 1] == f);
                    }
                    assert(self.page_of@ =~= old(self).page_of@.update(
                        f as int,
                        Option::None,
                    ));
                    assert forall|g: FrameId| g != f implies #[trigger] self.free_list@.contains(g)
                        == s.contains(g) by {
                        if s.contains(g) {
                            let j = choose|j: int| 0 <= j < s.len() && s[j] == g;
                            assert(j != s.len() - 1);
                            assert(self.free_list@[j] == g);
                        }
                        if self.free_list@.contains(g) {
                            let j = choose|j: int|
                                0 <= j < self.free_list@.len() && self.free_list@[j] == g;
                            assert(s[j] == g);
                        }
                    }
                    if self.free_list@.contains(f) {
                        let j = choose|j: int|
                            0 <= j < self.free_list@.len() && self.free_list@[j] == f;
                        assert(s[j] == f && s[s.len() - 1] == f);
                        assert(false);
                    }
                }
                Some(f)
            },
            None => {
                let evicted = self.eviction_policy.evict();
                match evicted {
                    Some(f) => {
                        let idx = f as usize;
                        let q = match self.page_of[idx] {
                            Some(q) => q,
                            None => {
                                proof {
                                    assert(false);
                                }
                                0
                            },
                        };
                        if self.frames[idx].is_dirty {
                            let completion = self.disk_scheduler.schedule_write(
                                q,
                                &self.frames[idx].data,
                            );
                            let reply = completion.recv();
                            proof {
                                assert(reply is Ok);
                            }
                        }
                        self.page_table.remove(&q);
                        self.page_of[idx] = None;
                        proof {
                            assert(self.page_of@ =~= old(self).page_of@.update(
                                f as int,
                                Option::None,
                            ));
                            assert(self.frames@[f as int].pin_count == 0) by {
                                if self.frames@[f as int].pin_count > 0 {
                                    assert(!old(self).eviction_policy.evictable(f));
                                }
                            }
                        }
                        Some(f)
                    },
                    None => None,
                }
            },
        }
    }

    /// Submits a read of `page_id` to the scheduler, waits on the completion
    /// channel, and installs the bytes into frame `frame_id`, which becomes
    /// clean. A read past the store's end yields a zeroed page and extends
    /// the store.
    fn load_page_from_disk(&mut self, page_id: PageId, frame_id: FrameId)
        requires
            page_in_bounds(page_id),
            (frame_id as int) < old(self).frames@.len(),
        ensures
            final(self).frames@.len() == old(self).frames@.len(),
            forall|j: int|
                0 <= j < old(self).frames@.len() && j != frame_id as int ==> #[trigger] final(self).frames@[j] == old(self).frames@[j],
            final(self).frames@[frame_id as int].pin_count == old(self).frames@[frame_id
                as int].pin_count,
            !final(self).frames@[frame_id as int].is_dirty,
            final(self).frames@[frame_id as int].data@ == loaded_page_bytes(
                old(self).disk_scheduler@,
                page_id,
            ),
            final(self).disk_scheduler@ == disk_after_load(old(self).disk_scheduler@, page_id),
            final(self).page_table@ == old(self).page_table@,
            final(self).page_of@ == old(self).page_of@,
            final(self).free_list@ == old(self).free_list@,
            final(self).eviction_policy == old(self).eviction_policy,
            final(self).live_pins == old(self).live_pins,
    {
        let completion = self.disk_scheduler.schedule_read(page_id);
        let reply = completion.recv();
        match reply {
            Ok(ScheduleOutcome::ReadDone(bytes)) => {
                let fr = &mut self.frames[frame_id as usize];
                fr.data = bytes;
                fr.is_dirty = false;
            },
            _ => {
                proof {
                    assert(false);
                }
            },
        }
    }

    /// Returns a read guard over the frame holding `page_id`, pinning it.
    /// On a miss the page is fetched from the backing store first, which may
    /// evict (and, if dirty, write back) another page; when every frame is
    /// pinned the fetch fails with `BufferPoolFull` and nothing changes.
    pub fn get_page_read(&mut self, page_id: PageId) -> (r: Result<
        PageReadGuard,
        BufferPoolError,
    >)
        requires
            old(self).wf(),
            page_in_bounds(page_id),
            old(self).policy().timestamp() < u64::MAX,
            old(self).pins_headroom(),
        ensures
            final(self).wf(),
            match r {
                Result::Ok(g) => old(self).fetchable(page_id) && fetch_post(
                    *old(self),
                    *final(self),
                    page_id,
                    g.frame_id_spec(),
                    false,
                ),
                Result::Err(e) => !old(self).fetchable(page_id) && e
                    == BufferPoolError::BufferPoolFull && final(self).wf() && pool_unchanged(
                    *old(self),
                    *final(self),
                ),
            },
    {
        let cached = match self.page_table.get(&page_id) {
            Some(f) => Some(*f),
            None => None,
        };
        match cached {
            Some(frame_id) => {
                let idx = frame_id as usize;
                proof {
                    assert(old(self).mapping().contains_key(page_id));
                    assert((frame_id as int) < old(self).num_frames());
                    assert(old(self).frame(frame_id).pin_count < u32::MAX);
                }
                let guard = PageReadGuard::new(
                    frame_id,
                    &mut self.frames[idx],
                    &mut self.eviction_policy,
                );
                proof {
                    self.live_pins@ = self.live_pins@.insert(frame_id);
                }
                proof {
                    lemma_fetch_hit_wf(*old(self), *self, page_id, frame_id, false);
                }
                Ok(guard)
            },
            None => {
                let frame_id = match self.try_get_free_frame() {
                    Some(f) => f,
                    None => {
                        return Err(BufferPoolError::BufferPoolFull);
                    },
                };
                let ghost mid = *self;
                self.page_table.insert(page_id, frame_id);
                self.page_of[frame_id as usize] = Some(page_id);
                self.load_page_from_disk(page_id, frame_id);
                let guard = PageReadGuard::new(
                    frame_id,
                    &mut self.frames[frame_id as usize],
                    &mut self.eviction_policy,
                );
                proof {
                    self.live_pins@ = self.live_pins@.insert(frame_id);
                }
                proof {
                    lemma_fetch_miss_wf(*old(self), mid, *self, page_id, frame_id, false);
                }
                Ok(guard)
            },
        }
    }

    /// Returns a write guard over the frame holding `page_id`, pinning it
    /// and marking it dirty. On a miss the page is fetched from the backing
    /// store first, which may evict (and, if dirty, write back) another
    /// page; when every frame is pinned the fetch fails with
    /// `BufferPoolFull` and nothing changes.
    pub fn get_page_write(&mut self, page_id: PageId) -> (r: Result<
        PageWriteGuard,
        BufferPoolError,
    >)
        requires
            old(self).wf(),
            page_in_bounds(page_id),
            old(self).policy().timestamp() < u64::MAX,
            old(self).pins_headroom(),
        ensures
            final(self).wf(),
            match r {
                Result::Ok(g) => old(self).fetchable(page_id) && fetch_post(
                    *old(self),
                    *final(self),
                    page_id,
                    g.frame_id_spec(),
                    true,
                ),
                Result::Err(e) => !old(self).fetchable(page_id) && e
                    == BufferPoolError::BufferPoolFull && final(self).wf() && pool_unchanged(
                    *old(self),
                    *final(self),
                ),
            },
    {
        let cached = match self.page_table.get(&page_id) {
            Some(f) => Some(*f),
            None => None,
        };
        match cached {
            Some(frame_id) => {
                let idx = frame_id as usize;
                proof {
                    assert(old(self).mapping().contains_key(page_id));
                    assert((frame_id as int) < old(self).num_frames());
                    assert(old(self).frame(frame_id).pin_count < u32::MAX);
                }
                let guard = PageWriteGuard::new(
                    frame_id,
                    &mut self.frames[idx],
                    &mut self.eviction_policy,
                );
                proof {
                    self.live_pins@ = self.live_pins@.insert(frame_id);
                }
                proof {
                    lemma_fetch_hit_wf(*old(self), *self, page_id, frame_id, true);
                }
                Ok(guard)
            },
            None => {
                let frame_id = match self.try_get_free_frame() {
                    Some(f) => f,
                    None => {
                        return Err(BufferPoolError::BufferPoolFull);
                    },
                };
                let ghost mid = *self;
                self.page_table.insert(page_id, frame_id);
                self.page_of[frame_id as usize] = Some(page_id);
                self.load_page_from_disk(page_id, frame_id);
                let guard = PageWriteGuard::new(
                    frame_id,
                    &mut self.frames[frame_id as usize],
                    &mut self.eviction_policy,
                );
                proof {
                    self.live_pins@ = self.live_pins@.insert(frame_id);
                }
                proof {
                    lemma_fetch_miss_wf(*old(self), mid, *self, page_id, frame_id, true);
                }
                Ok(guard)
            },
        }
    }

    /// Releases a read guard: unpins its frame, and once no pin is left the
    /// frame becomes evictable.
    pub fn release_read(&mut self, guard: PageReadGuard)
        requires
            old(self).wf(),
            (guard.frame_id_spec() as int) < old(self).num_frames(),
            old(self).frame(guard.frame_id_spec()).pin_count > 0,
        ensures
            final(self).wf(),
            release_post(*old(self), *final(self), guard.frame_id_spec()),
    {
        let f = guard.frame_id();
        let idx = f as usize;
        guard.release(&mut self.frames[idx], &mut self.eviction_policy);
        proof {
            self.live_pins@ = self.live_pins@.remove(f);
        }
        proof {
            lemma_release_wf(*old(self), *self, f);
        }
    }

    /// Releases a write guard: unpins its frame, and once no pin is left the
    /// frame becomes evictable. The frame stays dirty until eviction writes
    /// it back.
    pub fn release_write(&mut self, guard: PageWriteGuard)
        requires
            old(self).wf(),
            (guard.frame_id_spec() as int) < old(self).num_frames(),
            old(self).frame(guard.frame_id_spec()).pin_count > 0,
        ensures
            final(self).wf(),
            release_post(*old(self), *final(self), guard.frame_id_spec()),
    {
        let f = guard.frame_id();
        let idx = f as usize;
        guard.release(&mut self.frames[idx], &mut self.eviction_policy);
        proof {
            self.live_pins@ = self.live_pins@.remove(f);
        }
        proof {
            lemma_release_wf(*old(self), *self, f);
        }
    }
}

impl PageReadGuard {
    /// Shared access to the pinned frame's bytes.
    pub fn read<'a>(&self, pool: &'a BufferPool) -> (r: &'a Vec<u8>)
        requires
            (self.frame_id_spec() as int) < pool.num_frames(),
        ensures
            r@ == pool.frame(self.frame_id_spec()).data@,
    {
        &pool.frames[self.frame_id() as usize].data
    }
}

impl PageWriteGuard {
    /// Shared access to the pinned frame's bytes.
    pub fn read<'a>(&self, pool: &'a BufferPool) -> (r: &'a Vec<u8>)
        requires
            (self.frame_id_spec() as int) < pool.num_frames(),
        ensures
            r@ == pool.frame(self.frame_id_spec()).data@,
    {
        &pool.frames[self.frame_id() as usize].data
    }

    /// Replaces the pinned frame's bytes with one page worth of new bytes.
    pub fn write(&self, pool: &mut BufferPool, data: Vec<u8>)
        requires
            old(pool).wf(),
            (self.frame_id_spec() as int) < old(pool).num_frames(),
            old(pool).frame(self.frame_id_spec()).pin_count > 0,
            old(pool).frame(self.frame_id_spec()).is_dirty,
            data@.len() == PAGE_SIZE,
        ensures
            final(pool).wf(),
            final(pool).num_frames() == old(pool).num_frames(),
            final(pool).frame(self.frame_id_spec()).data == data,
            final(pool).frame(self.frame_id_spec()).pin_count == old(pool).frame(
                self.frame_id_spec(),
            ).pin_count,
            final(pool).frame(self.frame_id_spec()).is_dirty,
            forall|g: FrameId|
                g != self.frame_id_spec() && (g as int) < old(pool).num_frames()
                    ==> #[trigger] final(pool).frame(g) == old(pool).frame(g),
            final(pool).mapping() == old(pool).mapping(),
            final(pool).disk() == old(pool).disk(),
            final(pool).policy() == old(pool).policy(),
            final(pool).pins() == old(pool).pins(),
            forall|g: FrameId| #[trigger] final(pool).free(g) == old(pool).free(g),
            forall|g: FrameId| #[trigger]
                final(pool).bound_page(g) == old(pool).bound_page(g),
    {
        let idx = self.frame_id() as usize;
        let fr = &mut pool.frames[idx];
        fr.data = data;
    }
}

proof fn lemma_fetch_hit_wf(
    pre: BufferPool,
    post: BufferPool,
    page_id: PageId,
    f: FrameId,
    write_mode: bool,
)
    requires
        pre.wf(),
        pre.mapping().contains_key(page_id),
        f == pre.mapping()[page_id],
        post.page_table@ == pre.page_table@,
        post.page_of@ == pre.page_of@,
        post.free_list@ == pre.free_list@,
        post.disk_scheduler@ == pre.disk_scheduler@,
        post.frames@ == pre.frames@.update(
            f as int,
            (Frame {
                pin_count: (pre.frame(f).pin_count + 1) as u32,
                is_dirty: pre.frame(f).is_dirty || write_mode,
                data: pre.frames@[f as int].data,
            }),
        ),
        fetch_policy_post(pre.policy(), post.policy(), f, true),
        post.live_pins@ == pre.live_pins@.insert(f),
        pre.frame(f).pin_count < u32::MAX,
    ensures
        post.wf(),
        fetch_post(pre, post, page_id, f, write_mode),
{
    assert(0 <= f as int && (f as int) < pre.frames@.len());
    assert forall|i: int|
        0 <= i < post.frames@.len() && (#[trigger] post.frames@[i]).pin_count > 0
            implies !post.eviction_policy.evictable(i as FrameId) by {
        if i == f as int {
        } else {
            assert(post.frames@[i] == pre.frames@[i]);
            if pre.frames@[i].pin_count > 0 {
                assert(!pre.eviction_policy.evictable(i as FrameId));
                if pre.eviction_policy.tracks(i as FrameId) {
                    assert(post.eviction_policy.history(i as FrameId)
                        == pre.eviction_policy.history(i as FrameId));
                    assert(post.eviction_policy.evictable(i as FrameId)
                        == pre.eviction_policy.evictable(i as FrameId));
                } else {
                    assert(!post.eviction_policy.tracks(i as FrameId));
                }
            }
        }
    }
    assert forall|g: FrameId| #[trigger] post.eviction_policy.tracks(g) implies (g as int)
        < post.frames@.len() && post.page_of@[g as int] is Some by {
        if g != f {
            assert(pre.eviction_policy.tracks(g));
        }
    }
    assert(post.wf());
    assert(post.bound_page(f) == Some(page_id));
    assert forall|g: FrameId|
        g != f && (g as int) < pre.num_frames() implies #[trigger] post.frame(g) == pre.frame(
        g,
    ) by {
        assert(post.frames@[g as int] == pre.frames@[g as int]);
    }
    assert(fetch_post(pre, post, page_id, f, write_mode));
}

proof fn lemma_fetch_miss_wf(
    pre: BufferPool,
    mid: BufferPool,
    post: BufferPool,
    page_id: PageId,
    f: FrameId,
    write_mode: bool,
)
    requires
        pre.wf(),
        page_in_bounds(page_id),
        !pre.mapping().contains_key(page_id),
        // what try_get_free_frame left behind
        (f as int) < pre.frames@.len(),
        mid.frames@ == pre.frames@,
        mid.live_pins == pre.live_pins,
        mid.frames@[f as int].pin_count == 0,
        mid.page_of@ == pre.page_of@.update(f as int, Option::None),
        !mid.free_list@.contains(f),
        mid.free_list@.len() as int == if pre.free_count() > 0 {
            pre.free_list@.len() as int - 1
        } else {
            pre.free_list@.len() as int
        },
        forall|g: FrameId|
            g != f ==> #[trigger] mid.free_list@.contains(g) == pre.free_list@.contains(g),
        forall|j: int|
            0 <= j < mid.free_list@.len() ==> pre.free_list@.contains(
                #[trigger] mid.free_list@[j],
            ),
        forall|j1: int, j2: int|
            #![trigger mid.free_list@[j1], mid.free_list@[j2]]
            0 <= j1 < j2 < mid.free_list@.len() ==> mid.free_list@[j1] != mid.free_list@[j2],
        if pre.free_count() > 0 {
            &&& pre.free(f)
            &&& mid.page_table@ == pre.page_table@
            &&& mid.disk_scheduler@ == pre.disk_scheduler@
            &&& mid.eviction_policy == pre.eviction_policy
            &&& pre.page_of@[f as int] is None
        } else {
            &&& pre.policy().evictable(f)
            &&& forall|g: FrameId|
                #[trigger] pre.policy().evictable(g) && g != f ==> !pre.policy().preferred(g, f)
            &&& pre.bound_page(f) is Some
            &&& mid.page_table@ == pre.page_table@.remove(pre.bound_page(f)->0)
            &&& mid.disk_scheduler@ == flushed_disk(pre, f)
            &&& !mid.eviction_policy.tracks(f)
            &&& forall|g: FrameId|
                g != f ==> #[trigger] mid.eviction_policy.tracks(g) == pre.eviction_policy.tracks(
                    g,
                )
            &&& forall|g: FrameId|
                g != f && pre.eviction_policy.tracks(g) ==> #[trigger] mid.eviction_policy.history(
                    g,
                ) == pre.eviction_policy.history(g)
            &&& forall|g: FrameId|
                g != f ==> #[trigger] mid.eviction_policy.evictable(g)
                    == pre.eviction_policy.evictable(g)
            &&& mid.eviction_policy.wf()
            &&& mid.eviction_policy.k() == pre.eviction_policy.k()
            &&& mid.eviction_policy.timestamp() == pre.eviction_policy.timestamp()
            &&& mid.eviction_policy.evictable_count() + 1 == pre.eviction_policy.evictable_count()
        },
        // what the insert, the reverse-map update, the load and the guard did
        post.page_table@ == mid.page_table@.insert(page_id, f),
        post.page_of@ == mid.page_of@.update(f as int, Some(page_id)),
        post.free_list@ == mid.free_list@,
        post.frames@.len() == pre.frames@.len(),
        forall|j: int|
            0 <= j < pre.frames@.len() && j != f as int ==> #[trigger] post.frames@[j]
                == pre.frames@[j],
        post.frames@[f as int].pin_count == 1,
        post.frames@[f as int].is_dirty == write_mode,
        post.frames@[f as int].data@ == loaded_page_bytes(mid.disk_scheduler@, page_id),
        post.disk_scheduler@ == disk_after_load(mid.disk_scheduler@, page_id),
        fetch_policy_post(mid.eviction_policy, post.eviction_policy, f, false),
        post.live_pins@ == pre.live_pins@.insert(f),
    ensures
        post.wf(),
        fetch_post(pre, post, page_id, f, write_mode),
{
    let d0 = pre.disk_scheduler@;
    let d1 = mid.disk_scheduler@;
    let d2 = post.disk_scheduler@;
    let ghost q_opt = pre.bound_page(f);
    // the frame's pin count was zero before the fetch pinned it
    assert(pre.frames@[f as int].pin_count == 0);
    // the loaded bytes are one page long
    assert(loaded_page_bytes(d1, page_id).len() == PAGE_SIZE);
    assert(post.frames@[f as int].wf());
    // the disk after the flush and the load still holds every other clean page
    assert forall|p: PageId|
        #[trigger] pre.page_table@.contains_key(p) && p != q_opt->0 && covers_page(d0, p)
            implies covers_page(d2, p) && page_at(d2, p) == page_at(d0, p) by {
        if pre.free_count() > 0 {
            assert(d1 == d0);
        } else {
            if pre.frame(f).is_dirty {
                assert(p != q_opt->0);
                crate::disk_manager::lemma_write_preserves_other_pages(
                    d0,
                    q_opt->0,
                    pre.frame(f).data@,
                    p,
                );
            }
        }
        assert(covers_page(d1, p) && page_at(d1, p) == page_at(d0, p));
        if covers_page(d1, page_id) {
        } else {
            assert(p != page_id);
            crate::disk_manager::lemma_write_preserves_other_pages(d1, page_id, zero_page(), p);
        }
    }
    // the new frame's bytes match the store's bytes for the new page
    if covers_page(d1, page_id) {
        assert(d2 == d1);
        assert(post.frames@[f as int].data@ == page_at(d2, page_id));
    } else {
        crate::disk_manager::lemma_page_round_trip(d1, page_id, zero_page());
        assert(post.frames@[f as int].data@ == page_at(d2, page_id));
    }
    assert(covers_page(d2, page_id));
    // table coherence
    assert forall|p: PageId| #[trigger] post.page_table@.contains_key(p) implies (
    post.page_table@[p] as int) < post.frames@.len()
        && post.page_of@[post.page_table@[p] as int] == Some(p) && page_in_bounds(p) by {
        if p == page_id {
        } else {
            assert(pre.page_table@.contains_key(p));
            assert(pre.page_table@[p] == post.page_table@[p]);
            let g = pre.page_table@[p];
            assert(pre.page_of@[g as int] == Some(p));
            if g == f {
                assert(q_opt == Some(p));
                if pre.free_count() > 0 {
                    assert(pre.page_of@[f as int] is None);
                    assert(false);
                } else {
                    assert(!post.page_table@.contains_key(p));
                    assert(false);
                }
            }
        }
    }
    assert forall|i: int|
        0 <= i < post.page_of@.len() && (#[trigger] post.page_of@[i]) is Some implies
        post.page_table@.contains_key(post.page_of@[i]->0) && post.page_table@[post.page_of@[i]->0]
        as int == i by {
        if i == f as int {
        } else {
            assert(post.page_of@[i] == pre.page_of@[i]);
            let p = pre.page_of@[i]->0;
            assert(pre.page_table@.contains_key(p) && pre.page_table@[p] as int == i);
            assert(p != page_id);
            if pre.free_count() == 0 {
                assert(pre.page_table@[q_opt->0] as int == f as int);
                assert(p != q_opt->0);
            }
        }
    }
    // free list
    assert forall|i: int|
        0 <= i < post.page_of@.len() && (#[trigger] post.page_of@[i]) is None implies
        post.free_list@.contains(i as FrameId) by {
        assert(i != f as int);
        assert(pre.page_of@[i] is None);
        assert(pre.free_list@.contains(i as FrameId));
        assert(i as FrameId != f);
    }
    assert forall|j: int| 0 <= j < post.free_list@.len() implies {
        let g = (#[trigger] post.free_list@[j]) as int;
        post.page_of@[g] is None && post.frames@[g].pin_count == 0 && !post.frames@[g].is_dirty
    } by {
        let g = post.free_list@[j];
        assert(post.free_list@.contains(g));
        assert(pre.free_list@.contains(g));
        let j0 = choose|j0: int| 0 <= j0 < pre.free_list@.len() && pre.free_list@[j0] == g;
        assert(g != f);
        assert(pre.page_of@[g as int] is None);
        assert(post.frames@[g as int] == pre.frames@[g as int]);
    }
    assert forall|j: int| 0 <= j < post.free_list@.len() implies ((#[trigger] post.free_list@[j])
        as int) < post.frames@.len() by {
        let g = post.free_list@[j];
        assert(pre.free_list@.contains(g));
        let j0 = choose|j0: int| 0 <= j0 < pre.free_list@.len() && pre.free_list@[j0] == g;
    }
    // policy coherence
    assert forall|g: FrameId| #[trigger] post.eviction_policy.tracks(g) implies (g as int)
        < post.frames@.len() && post.page_of@[g as int] is Some by {
        if g != f {
            assert(mid.eviction_policy.tracks(g));
            if pre.free_count() > 0 {
                assert(pre.eviction_policy.tracks(g));
            } else {
                assert(pre.eviction_policy.tracks(g));
            }
            assert(pre.page_of@[g as int] is Some);
        }
    }
    assert forall|i: int|
        0 <= i < post.page_of@.len() && (#[trigger] post.page_of@[i]) is Some implies
        post.eviction_policy.tracks(i as FrameId) by {
        if i == f as int {
        } else {
            assert(pre.page_of@[i] is Some);
            assert(pre.eviction_policy.tracks(i as FrameId));
        }
    }
    assert forall|i: int|
        0 <= i < post.frames@.len() && (#[trigger] post.frames@[i]).pin_count > 0 implies
        !post.eviction_policy.evictable(i as FrameId) by {
        if i == f as int {
        } else {
            assert(pre.frames@[i].pin_count > 0);
            assert(!pre.eviction_policy.evictable(i as FrameId));
            assert(i as FrameId != f);
            if pre.eviction_policy.tracks(i as FrameId) {
                assert(mid.eviction_policy.tracks(i as FrameId));
                if pre.free_count() > 0 {
                    assert(mid.eviction_policy == pre.eviction_policy);
                } else {
                    assert(mid.eviction_policy.history(i as FrameId)
                        == pre.eviction_policy.history(i as FrameId));
                    assert(mid.eviction_policy.evictable(i as FrameId)
                        == pre.eviction_policy.evictable(i as FrameId));
                }
                assert(post.eviction_policy.history(i as FrameId)
                    == mid.eviction_policy.history(i as FrameId));
                assert(post.eviction_policy.evictable(i as FrameId)
                    == mid.eviction_policy.evictable(i as FrameId));
            } else {
                assert(!mid.eviction_policy.tracks(i as FrameId));
                assert(!post.eviction_policy.tracks(i as FrameId));
            }
        }
    }
    // pins
    assert forall|i: int| 0 <= i < post.frames@.len() implies (#[trigger] post.frames@[i]).pin_count
        as nat == post.live_pins@.count(i as FrameId) by {
        if i == f as int {
            assert(pre.frames@[i].pin_count == 0);
        } else {
            assert(post.frames@[i] == pre.frames@[i]);
            assert(i as FrameId != f);
        }
    }
    assert forall|i: int|
        0 <= i < post.frames@.len() && (#[trigger] post.frames@[i]).pin_count > 0 implies
        post.page_of@[i] is Some by {
        if i != f as int {
            assert(pre.frames@[i].pin_count > 0);
        }
    }
    // clean frames match the store
    assert forall|i: int|
        0 <= i < post.frames@.len() && (#[trigger] post.page_of@[i]) is Some
            && !post.frames@[i].is_dirty implies covers_page(d2, post.page_of@[i]->0)
        && post.frames@[i].data@ == page_at(d2, post.page_of@[i]->0) by {
        if i == f as int {
        } else {
            let p = pre.page_of@[i]->0;
            assert(covers_page(d0, p) && pre.frames@[i].data@ == page_at(d0, p));
            assert(pre.page_table@.contains_key(p) && pre.page_table@[p] as int == i);
            if pre.free_count() == 0 {
                assert(pre.page_table@[q_opt->0] as int == f as int);
                assert(p != q_opt->0);
            }
        }
    }
    assert(post.wf());
    assert(post.mapping() == if pre.bound_page(f) is Some {
        pre.mapping().remove(pre.bound_page(f)->0).insert(page_id, f)
    } else {
        pre.mapping().insert(page_id, f)
    }) by {
        if pre.free_count() > 0 {
            assert(pre.page_of@[f as int] is None);
        }
    }
    assert(flushed_disk(pre, f) == d1) by {
        if pre.free_count() > 0 {
            assert(pre.page_of@[f as int] is None);
        }
    }
    assert forall|g: FrameId|
        g != f && (g as int) < pre.num_frames() implies #[trigger] post.frame(g) == pre.frame(
        g,
    ) by {}
    assert(!post.free(f));
    // the frame the fetch took was not evictable by the time it was pinned,
    // so the policy's evictable count drops exactly when a victim was taken
    if pre.free_count() > 0 {
        if pre.eviction_policy.tracks(f) {
            assert(pre.page_of@[f as int] is Some);
        }
        crate::lruk_eviction::lemma_untracked_not_evictable(&pre.eviction_policy, f);
    } else {
        crate::lruk_eviction::lemma_untracked_not_evictable(&mid.eviction_policy, f);
        assert(!pre.free(f));
    }
    assert(fetch_post(pre, post, page_id, f, write_mode));
}

proof fn lemma_release_wf(pre: BufferPool, post: BufferPool, f: FrameId)
    requires
        pre.wf(),
        (f as int) < pre.num_frames(),
        pre.frame(f).pin_count > 0,
        post.page_table@ == pre.page_table@,
        post.page_of@ == pre.page_of@,
        post.free_list@ == pre.free_list@,
        post.disk_scheduler@ == pre.disk_scheduler@,
        post.frames@ == pre.frames@.update(
            f as int,
            (Frame {
                pin_count: (pre.frame(f).pin_count - 1) as u32,
                is_dirty: pre.frame(f).is_dirty,
                data: pre.frames@[f as int].data,
            }),
        ),
        crate::frame::guard_release_policy_post(
            pre.eviction_policy,
            post.eviction_policy,
            f,
            pre.frame(f).pin_count == 1,
        ),
        post.live_pins@ == pre.live_pins@.remove(f),
    ensures
        post.wf(),
        release_post(pre, post, f),
{
    assert(pre.eviction_policy.tracks(f)) by {
        assert(pre.page_of@[f as int] is Some);
    }
    assert forall|i: int|
        0 <= i < post.frames@.len() && (#[trigger] post.frames@[i]).pin_count > 0 implies
        !post.eviction_policy.evictable(i as FrameId) by {
        if i == f as int {
            assert(pre.frame(f).pin_count > 1);
            assert(!pre.eviction_policy.evictable(f));
        } else {
            assert(pre.frames@[i].pin_count > 0);
            assert(!pre.eviction_policy.evictable(i as FrameId));
        }
    }
    assert forall|g: FrameId| #[trigger] post.eviction_policy.tracks(g) implies (g as int)
        < post.frames@.len() && post.page_of@[g as int] is Some by {
        assert(pre.eviction_policy.tracks(g));
    }
    assert forall|i: int| 0 <= i < post.frames@.len() implies (#[trigger] post.frames@[i]).pin_count
        as nat == post.live_pins@.count(i as FrameId) by {
        if i == f as int {
        } else {
            assert(post.frames@[i] == pre.frames@[i]);
            assert(i as FrameId != f);
        }
    }
    assert(post.wf());
    assert(post.policy().evictable(f) == (pre.frame(f).pin_count == 1)) by {
        if pre.frame(f).pin_count == 1 {
            assert(post.policy().evictable(f) == pre.policy().tracks(f));
        } else {
            assert(post.eviction_policy == pre.eviction_policy);
            assert(!pre.eviction_policy.evictable(f));
        }
    }
    assert(post.policy().evictable_count() as int == pre.policy().evictable_count() as int + (
    if pre.frame(f).pin_count == 1 {
        1int
    } else {
        0int
    })) by {
        assert(!pre.eviction_policy.evictable(f));
        if pre.frame(f).pin_count != 1 {
            assert(post.eviction_policy == pre.eviction_policy);
        }
    }
    assert forall|g: FrameId|
        g != f && (g as int) < pre.num_frames() implies #[trigger] post.frame(g) == pre.frame(
        g,
    ) by {}
    assert(release_post(pre, post, f));
}

/// For every `page_id -> frame_id` binding in the page table, the frame's
/// latest successful load was for that page, and if the frame was not
/// written since, its bytes are exactly the store's bytes for that page.
pub proof fn lemma_mapped_frame_holds_its_page(pool: &BufferPool, page_id: PageId)
    requires
        pool.wf(),
        pool.mapping().contains_key(page_id),
    ensures
        (pool.mapping()[page_id] as int) < pool.num_frames(),
        pool.bound_page(pool.mapping()[page_id]) == Some(page_id),
        !pool.frame(pool.mapping()[page_id]).is_dirty ==> pool.frame(
            pool.mapping()[page_id],
        ).data@ == page_at(pool.disk(), page_id),
{
}

/// A frame id appears in the page table (it is bound to a page) or in the
/// free list, never in both.
pub proof fn lemma_frame_bound_xor_free(pool: &BufferPool, f: FrameId)
    requires
        pool.wf(),
        (f as int) < pool.num_frames(),
    ensures
        pool.bound_page(f) is Some <==> !pool.free(f),
{
    if pool.free(f) {
        let j = choose|j: int|
            0 <= j < pool.free_list@.len() && pool.free_list@[j] == f;
        assert(pool.page_of@[f as int] is None);
    }
}

/// A frame's pin count equals the number of live guards on it.
pub proof fn lemma_pin_count_matches_live_guards(pool: &BufferPool, f: FrameId)
    requires
        pool.wf(),
        (f as int) < pool.num_frames(),
    ensures
        pool.frame(f).pin_count as nat == pool.pins().count(f),
{
}

/// When a fetch evicts a dirty frame, the evicted page's bytes are written
/// back: afterwards the store holds, at the old page's offset, exactly the
/// bytes the frame carried.
pub proof fn lemma_dirty_eviction_writes_back(
    pre: BufferPool,
    post: BufferPool,
    page_id: PageId,
    f: FrameId,
    write_mode: bool,
)
    requires
        pre.wf(),
        !pre.mapping().contains_key(page_id),
        fetch_post(pre, post, page_id, f, write_mode),
        pre.bound_page(f) is Some,
        pre.frame(f).is_dirty,
    ensures
        covers_page(post.disk(), pre.bound_page(f)->0),
        page_at(post.disk(), pre.bound_page(f)->0) == pre.frame(f).data@,
{
    let q = pre.bound_page(f)->0;
    let d1 = flushed_disk(pre, f);
    assert(pre.page_of@[f as int] == Some(q));
    assert(pre.page_table@.contains_key(q) && pre.page_table@[q] == f);
    assert(q != page_id);
    assert(pre.frame(f).data@.len() == PAGE_SIZE) by {
        assert(pre.frames@[f as int].wf());
    }
    crate::disk_manager::lemma_page_round_trip(pre.disk(), q, pre.frame(f).data@);
    if !covers_page(d1, page_id) {
        crate::disk_manager::lemma_write_preserves_other_pages(d1, page_id, zero_page(), q);
    }
}

/// A fetch that misses on a page the store already covers fills the frame
/// with exactly the store's bytes for that page: together with the
/// write-back on eviction, a page written under a write guard, evicted, and
/// fetched again yields the same bytes.
pub proof fn lemma_fetch_returns_stored_bytes(
    pre: BufferPool,
    post: BufferPool,
    page_id: PageId,
    f: FrameId,
    write_mode: bool,
)
    requires
        pre.wf(),
        !pre.mapping().contains_key(page_id),
        fetch_post(pre, post, page_id, f, write_mode),
        covers_page(pre.disk(), page_id),
    ensures
        post.frame(f).data@ == page_at(pre.disk(), page_id),
{
    let d1 = flushed_disk(pre, f);
    if pre.bound_page(f) is Some && pre.frame(f).is_dirty {
        let q = pre.bound_page(f)->0;
        assert(pre.page_of@[f as int] == Some(q));
        assert(pre.page_table@.contains_key(q) && pre.page_table@[q] == f);
        assert(q != page_id);
        assert(pre.frame(f).data@.len() == PAGE_SIZE) by {
            assert(pre.frames@[f as int].wf());
        }
        crate::disk_manager::lemma_write_preserves_other_pages(
            pre.disk(),
            q,
            pre.frame(f).data@,
            page_id,
        );
    }
    assert(covers_page(d1, page_id) && page_at(d1, page_id) == page_at(pre.disk(), page_id));
}

/// A frame standing in the free list makes the free count positive, so a
/// fetch is owed success while any frame is free.
pub proof fn lemma_free_frame_counts(pool: &BufferPool, f: FrameId)
    requires
        pool.free(f),
    ensures
        pool.free_count() > 0,
{
    let j = choose|j: int| 0 <= j < pool.free_list@.len() && pool.free_list@[j] == f;
}

/// A pinned frame is never evictable: while any guard is live on it, the
/// policy will not choose it as a victim.
pub proof fn lemma_pinned_frame_not_evictable(pool: &BufferPool, f: FrameId)
    requires
        pool.wf(),
        (f as int) < pool.num_frames(),
        pool.frame(f).pin_count > 0,
    ensures
        !pool.policy().evictable(f),
{
}

} // verus!
