//! The interface of an eviction policy: bookkeeping of per-frame accesses,
//! an evictability flag per tracked frame, and the selection of a victim.

use vstd::prelude::*;

use crate::frame::FrameId;

verus! {

/// The kind of access being recorded. Recorded but not used by the current
/// policy; reserved for future refinements of the selection rule.
#[derive(Clone, Copy, Debug)]
pub enum AccessType {
    Lookup,
    Scan,
    Index,
}

/// An eviction policy tracks a set of frames, each with a bounded history of
/// access timestamps and an evictability flag, and selects the best victim
/// among the evictable frames.
pub trait EvictionPolicy: Sized {
    /// Structural soundness of the policy's bookkeeping.
    spec fn wf(&self) -> bool;

    /// How many past accesses are kept per frame.
    spec fn k(&self) -> int;

    /// The current value of the policy-wide monotonic access counter.
    spec fn timestamp(&self) -> u64;

    /// Whether the policy currently tracks `frame_id`.
    spec fn tracks(&self, frame_id: FrameId) -> bool;

    /// Whether `frame_id` is tracked and flagged as evictable.
    spec fn evictable(&self, frame_id: FrameId) -> bool;

    /// The recorded access timestamps of a tracked frame, oldest first.
    spec fn history(&self, frame_id: FrameId) -> Seq<u64>;

    /// The number of tracked frames flagged as evictable.
    spec fn evictable_count(&self) -> nat;

    /// Whether the policy ranks tracked frame `a` strictly ahead of tracked
    /// frame `b` as an eviction victim.
    spec fn preferred(&self, a: FrameId, b: FrameId) -> bool;

    /// Selects the best evictable frame, removes it from the policy and
    /// returns it; returns `None`, changing nothing, exactly when no tracked
    /// frame is evictable.
    fn evict(&mut self) -> (r: Option<FrameId>)
        requires
            old(self).wf(),
        ensures
            final(self).wf(),
            final(self).k() == old(self).k(),
            final(self).timestamp() == old(self).timestamp(),
            match r {
                Option::None => {
                    &&& old(self).evictable_count() == 0
                    &&& *final(self) == *old(self)
                },
                Option::Some(f) => {
                    &&& old(self).tracks(f)
                    &&& old(self).evictable(f)
                    &&& !final(self).tracks(f)
                    &&& !final(self).evictable(f)
                    &&& forall|g: FrameId| g != f ==> #[trigger] final(self).tracks(g) == old(self).tracks(g)
                    &&& forall|g: FrameId|
                        g != f && old(self).tracks(g) ==> #[trigger] final(self).history(g)
                            == old(self).history(g)
                    &&& forall|g: FrameId|
                        g != f ==> #[trigger] final(self).evictable(g) == old(self).evictable(g)
                    &&& final(self).evictable_count() + 1 == old(self).evictable_count()
                    &&& forall|g: FrameId|
                        #[trigger] old(self).evictable(g) && g != f ==> !old(self).preferred(g, f)
                },
            },
    ;

    /// Records an access to `frame_id` at the next timestamp, tracking the
    /// frame (initially non-evictable) if it was unknown, and keeping only
    /// the `k` most recent timestamps of its history.
    fn record_access(&mut self, frame_id: FrameId, access_type: AccessType)
        requires
            old(self).wf(),
            old(self).timestamp() < u64::MAX,
        ensures
            final(self).wf(),
            final(self).k() == old(self).k(),
            final(self).timestamp() == old(self).timestamp() + 1,
            final(self).tracks(frame_id),
            final(self).history(frame_id) == if old(self).tracks(frame_id) {
                (if old(self).history(frame_id).len() == old(self).k() {
                    old(self).history(frame_id).skip(1)
                } else {
                    old(self).history(frame_id)
                }).push(old(self).timestamp())
            } else {
                seq![old(self).timestamp()]
            },
            final(self).evictable(frame_id) == old(self).evictable(frame_id),
            forall|g: FrameId| g != frame_id ==> #[trigger] final(self).tracks(g) == old(self).tracks(g),
            forall|g: FrameId|
                g != frame_id && old(self).tracks(g) ==> #[trigger] final(self).history(g) == old(self).history(g),
            forall|g: FrameId|
                g != frame_id ==> #[trigger] final(self).evictable(g) == old(self).evictable(g),
            final(self).evictable_count() == old(self).evictable_count(),
    ;

    /// Sets the evictability flag of a tracked frame, returning whether the
    /// frame was known; an unknown frame leaves the policy unchanged.
    fn set_evictable(&mut self, frame_id: FrameId, is_evictable: bool) -> (r: bool)
        requires
            old(self).wf(),
        ensures
            final(self).wf(),
            r == old(self).tracks(frame_id),
            final(self).k() == old(self).k(),
            final(self).timestamp() == old(self).timestamp(),
            forall|g: FrameId| #[trigger] final(self).tracks(g) == old(self).tracks(g),
            forall|g: FrameId|
                old(self).tracks(g) ==> #[trigger] final(self).history(g) == old(self).history(g),
            forall|g: FrameId|
                g != frame_id ==> #[trigger] final(self).evictable(g) == old(self).evictable(g),
            old(self).tracks(frame_id) ==> final(self).evictable(frame_id) == is_evictable,
            !old(self).tracks(frame_id) ==> *final(self) == *old(self),
            final(self).evictable_count() as int == old(self).evictable_count() as int - (if old(self).evictable(frame_id) {
                1int
            } else {
                0int
            }) + (if old(self).tracks(frame_id) && is_evictable {
                1int
            } else {
                0int
            }),
    ;

    /// Drops a frame from the policy unconditionally.
    fn remove(&mut self, frame_id: FrameId)
        requires
            old(self).wf(),
        ensures
            final(self).wf(),
            final(self).k() == old(self).k(),
            final(self).timestamp() == old(self).timestamp(),
            !final(self).tracks(frame_id),
            !final(self).evictable(frame_id),
            forall|g: FrameId| g != frame_id ==> #[trigger] final(self).tracks(g) == old(self).tracks(g),
            forall|g: FrameId|
                g != frame_id && old(self).tracks(g) ==> #[trigger] final(self).history(g) == old(self).history(g),
            forall|g: FrameId|
                g != frame_id ==> #[trigger] final(self).evictable(g) == old(self).evictable(g),
            final(self).evictable_count() as int == old(self).evictable_count() as int - (if old(self).evictable(frame_id) {
                1int
            } else {
                0int
            }),
    ;
}

} // verus!
