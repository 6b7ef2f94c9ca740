//! An in-memory frame holding one page worth of bytes, together with its pin
//! count and dirty flag, and the scoped guards that pin it.

use vstd::prelude::*;

use crate::config::PAGE_SIZE;
use crate::eviction::{AccessType, EvictionPolicy};

verus! {

/// The buffer pool frame id, for internal use only. It is not associated
/// with the page id.
pub type FrameId = u16;

/// A fixed-capacity page buffer with pin accounting.
pub struct Frame {
    /// How many live guards refer to this frame. A frame can only be evicted
    /// if `pin_count` is 0.
    pub pin_count: u32,
    /// Whether the in-memory bytes may differ from the backing store.
    pub is_dirty: bool,
    /// The page bytes, exactly `PAGE_SIZE` of them. They are only guaranteed
    /// to hold valid page data once a load has succeeded.
    pub data: Vec<u8>,
}

impl Frame {
    /// A frame holds exactly one page worth of bytes.
    pub open spec fn wf(&self) -> bool {
        self.data@.len() == PAGE_SIZE
    }

    /// Wraps a page-sized buffer into an unpinned, clean frame.
    pub fn new(data: Vec<u8>) -> (r: Frame)
        requires
            data@.len() == PAGE_SIZE,
        ensures
            r.wf(),
            r.pin_count == 0,
            !r.is_dirty,
            r.data == data,
    {
        Frame { pin_count: 0, is_dirty: false, data }
    }
}

/// A scoped read pin on a frame: taking it records the access, makes the
/// frame non-evictable and increments its pin count; releasing it decrements
/// the pin count and makes the frame evictable again once no pin is left.
pub struct PageReadGuard {
    frame_id: FrameId,
}

/// A scoped write pin on a frame: as a read pin, and additionally marks the
/// frame dirty, since its bytes may be changed while the pin is held.
pub struct PageWriteGuard {
    frame_id: FrameId,
}

impl PageReadGuard {
    /// The frame this guard pins.
    pub closed spec fn frame_id_spec(&self) -> FrameId {
        self.frame_id
    }

    /// The frame this guard pins.
    pub fn frame_id(&self) -> (r: FrameId)
        ensures
            r == self.frame_id_spec(),
    {
        self.frame_id
    }

    /// Pins `frame_id` for reading: records a lookup access in the eviction
    /// policy, marks the frame non-evictable and increments its pin count.
    pub fn new<P: EvictionPolicy>(frame_id: FrameId, frame: &mut Frame, eviction_policy: &mut P)
        -> (r: PageReadGuard)
        requires
            old(eviction_policy).wf(),
            old(eviction_policy).timestamp() < u64::MAX,
            old(frame).pin_count < u32::MAX,
        ensures
            r.frame_id_spec() == frame_id,
            final(frame).pin_count == old(frame).pin_count + 1,
            final(frame).is_dirty == old(frame).is_dirty,
            final(frame).data == old(frame).data,
            final(eviction_policy).wf(),
            final(eviction_policy).k() == old(eviction_policy).k(),
            final(eviction_policy).timestamp() == old(eviction_policy).timestamp() + 1,
            final(eviction_policy).tracks(frame_id),
            !final(eviction_policy).evictable(frame_id),
            final(eviction_policy).history(frame_id) == if old(eviction_policy).tracks(frame_id) {
                (if old(eviction_policy).history(frame_id).len() == old(eviction_policy).k() {
                    old(eviction_policy).history(frame_id).skip(1)
                } else {
                    old(eviction_policy).history(frame_id)
                }).push(old(eviction_policy).timestamp())
            } else {
                seq![old(eviction_policy).timestamp()]
            },
            forall|g: FrameId|
                g != frame_id ==> #[trigger] final(eviction_policy).tracks(g) == old(eviction_policy).tracks(g),
            forall|g: FrameId|
                g != frame_id && old(eviction_policy).tracks(g) ==> #[trigger] final(eviction_policy).history(g) == old(eviction_policy).history(g),
            forall|g: FrameId|
                g != frame_id ==> #[trigger] final(eviction_policy).evictable(g) == old(eviction_policy).evictable(g),
            final(eviction_policy).evictable_count() as int == old(eviction_policy).evictable_count() as int - (if old(eviction_policy).evictable(frame_id) {
                1int
            } else {
                0int
            }),
    {
        eviction_policy.record_access(frame_id, AccessType::Lookup);
        eviction_policy.set_evictable(frame_id, false);
        frame.pin_count = frame.pin_count + 1;
        PageReadGuard { frame_id }
    }

    /// Drops the pin: decrements the frame's pin count, and once it reaches
    /// zero marks the frame evictable in the policy.
    pub fn release<P: EvictionPolicy>(self, frame: &mut Frame, eviction_policy: &mut P)
        requires
            old(eviction_policy).wf(),
            old(eviction_policy).tracks(self.frame_id_spec()),
            old(frame).pin_count > 0,
        ensures
            final(frame).pin_count == old(frame).pin_count - 1,
            final(frame).is_dirty == old(frame).is_dirty,
            final(frame).data == old(frame).data,
            guard_release_policy_post(
                *old(eviction_policy),
                *final(eviction_policy),
                self.frame_id_spec(),
                old(frame).pin_count == 1,
            ),
    {
        frame.pin_count = frame.pin_count - 1;
        if frame.pin_count == 0 {
            eviction_policy.set_evictable(self.frame_id, true);
        }
    }
}

/// What releasing a guard does to the eviction policy: nothing while other
/// pins remain; when the last pin goes, the frame becomes evictable.
pub open spec fn guard_release_policy_post<P: EvictionPolicy>(
    pre: P,
    post: P,
    frame_id: FrameId,
    last_pin: bool,
) -> bool {
    &&& post.wf()
    &&& post.k() == pre.k()
    &&& post.timestamp() == pre.timestamp()
    &&& forall|g: FrameId| #[trigger] post.tracks(g) == pre.tracks(g)
    &&& forall|g: FrameId| pre.tracks(g) ==> #[trigger] post.history(g) == pre.history(g)
    &&& forall|g: FrameId|
        g != frame_id ==> #[trigger] post.evictable(g) == pre.evictable(g)
    &&& if last_pin {
        post.evictable(frame_id) == pre.tracks(frame_id) && post.evictable_count() as int
            == pre.evictable_count() as int - (if pre.evictable(frame_id) {
            1int
        } else {
            0int
        }) + (if pre.tracks(frame_id) {
            1int
        } else {
            0int
        })
    } else {
        post == pre
    }
}

impl PageWriteGuard {
    /// The frame this guard pins.
    pub closed spec fn frame_id_spec(&self) -> FrameId {
        self.frame_id
    }

    /// The frame this guard pins.
    pub fn frame_id(&self) -> (r: FrameId)
        ensures
            r == self.frame_id_spec(),
    {
        self.frame_id
    }

    /// Pins `frame_id` for writing: records a lookup access in the eviction
    /// policy, marks the frame non-evictable, increments its pin count, and
    /// sets the dirty flag, since the bytes may now diverge from the store.
    pub fn new<P: EvictionPolicy>(frame_id: FrameId, frame: &mut Frame, eviction_policy: &mut P)
        -> (r: PageWriteGuard)
        requires
            old(eviction_policy).wf(),
            old(eviction_policy).timestamp() < u64::MAX,
            old(frame).pin_count < u32::MAX,
        ensures
            r.frame_id_spec() == frame_id,
            final(frame).pin_count == old(frame).pin_count + 1,
            final(frame).is_dirty,
            final(frame).data == old(frame).data,
            final(eviction_policy).wf(),
            final(eviction_policy).k() == old(eviction_policy).k(),
            final(eviction_policy).timestamp() == old(eviction_policy).timestamp() + 1,
            final(eviction_policy).tracks(frame_id),
            !final(eviction_policy).evictable(frame_id),
            final(eviction_policy).history(frame_id) == if old(eviction_policy).tracks(frame_id) {
                (if old(eviction_policy).history(frame_id).len() == old(eviction_policy).k() {
                    old(eviction_policy).history(frame_id).skip(1)
                } else {
                    old(eviction_policy).history(frame_id)
                }).push(old(eviction_policy).timestamp())
            } else {
                seq![old(eviction_policy).timestamp()]
            },
            forall|g: FrameId|
                g != frame_id ==> #[trigger] final(eviction_policy).tracks(g) == old(eviction_policy).tracks(g),
            forall|g: FrameId|
                g != frame_id && old(eviction_policy).tracks(g) ==> #[trigger] final(eviction_policy).history(g) == old(eviction_policy).history(g),
            forall|g: FrameId|
                g != frame_id ==> #[trigger] final(eviction_policy).evictable(g) == old(eviction_policy).evictable(g),
            final(eviction_policy).evictable_count() as int == old(eviction_policy).evictable_count() as int - (if old(eviction_policy).evictable(frame_id) {
                1int
            } else {
                0int
            }),
    {
        eviction_policy.record_access(frame_id, AccessType::Lookup);
        eviction_policy.set_evictable(frame_id, false);
        frame.pin_count = frame.pin_count + 1;
        frame.is_dirty = true;
        PageWriteGuard { frame_id }
    }

    /// Drops the pin: decrements the frame's pin count, and once it reaches
    /// zero marks the frame evictable in the policy. The dirty flag stays
    /// set; writing the bytes back is the eviction path's concern.
    pub fn release<P: EvictionPolicy>(self, frame: &mut Frame, eviction_policy: &mut P)
        requires
            old(eviction_policy).wf(),
            old(eviction_policy).tracks(self.frame_id_spec()),
            old(frame).pin_count > 0,
        ensures
            final(frame).pin_count == old(frame).pin_count - 1,
            final(frame).is_dirty == old(frame).is_dirty,
            final(frame).data == old(frame).data,
            guard_release_policy_post(
                *old(eviction_policy),
                *final(eviction_policy),
                self.frame_id_spec(),
                old(frame).pin_count == 1,
            ),
    {
        frame.pin_count = frame.pin_count - 1;
        if frame.pin_count == 0 {
            eviction_policy.set_evictable(self.frame_id, true);
        }
    }
}

} // verus!
