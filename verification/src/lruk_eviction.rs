//! The LRU-K eviction policy: per-frame histories of up to `k` access
//! timestamps, and victim selection by largest backward k-distance.

use vstd::prelude::*;

use crate::eviction::{AccessType, EvictionPolicy};
use crate::frame::FrameId;

verus! {

/// Per-frame bookkeeping of the LRU-K policy: the frame, its evictability
/// flag, and its most recent access timestamps (oldest first, at most `k`).
pub struct LRUKNode {
    frame_id: FrameId,
    is_evictable: bool,
    history: Vec<u64>,
}

/// The LRU-K eviction policy. It evicts the frame whose backward k-distance
/// (time since the k-th previous access) is largest, treating frames with
/// fewer than `k` recorded accesses as infinitely distant.
pub struct LRUKEvictionPolicy {
    /// The number of historical accesses to track.
    k: usize,
    /// The frames that are currently tracked by the policy.
    nodes: Vec<LRUKNode>,
    /// An incremental counter that tracks the current timestamp starting from 0.
    current_timestamp: u64,
}

/// Whether a history of `h` recorded accesses has infinite backward
/// k-distance, that is, fewer than `k` accesses were ever recorded.
pub open spec fn backward_distance_is_infinite(h: Seq<u64>, k: int) -> bool {
    h.len() < k
}

/// The timestamp that orders a candidate among its class: for a frame with
/// infinite backward k-distance its most recent access (ties among infinite
/// candidates go to the least recently accessed), otherwise its oldest
/// recorded access, which is the k-th previous one, so that a smaller value
/// means a larger backward k-distance.
pub open spec fn candidate_rank(h: Seq<u64>, k: int) -> u64 {
    if backward_distance_is_infinite(h, k) {
        h.last()
    } else {
        h.first()
    }
}

/// Whether a frame with history `a` is a strictly better eviction victim
/// than one with history `b`: infinite backward k-distance beats finite, and
/// within the same class the smaller rank timestamp wins.
pub open spec fn lruk_preferred(a: Seq<u64>, b: Seq<u64>, k: int) -> bool {
    if backward_distance_is_infinite(a, k) != backward_distance_is_infinite(b, k) {
        backward_distance_is_infinite(a, k)
    } else {
        candidate_rank(a, k) < candidate_rank(b, k)
    }
}

spec fn spec_node_wf(n: LRUKNode, k: int, ts: u64) -> bool {
    &&& 1 <= n.history@.len() <= k
    &&& forall|i: int, j: int|
        #![trigger n.history@[i], n.history@[j]]
        0 <= i < j < n.history@.len() ==> n.history@[i] < n.history@[j]
    &&& forall|i: int| 0 <= i < n.history@.len() ==> #[trigger] n.history@[i] < ts
}

spec fn nodes_distinct(s: Seq<LRUKNode>) -> bool {
    forall|i: int, j: int|
        #![trigger s[i].frame_id, s[j].frame_id]
        0 <= i < j < s.len() ==> s[i].frame_id != s[j].frame_id
}

spec fn seq_tracks(s: Seq<LRUKNode>, f: FrameId) -> bool {
    exists|i: int| 0 <= i < s.len() && (#[trigger] s[i]).frame_id == f
}

spec fn index_of(s: Seq<LRUKNode>, f: FrameId) -> int {
    choose|i: int| 0 <= i < s.len() && (#[trigger] s[i]).frame_id == f
}

spec fn node_of(s: Seq<LRUKNode>, f: FrameId) -> LRUKNode {
    s[index_of(s, f)]
}

spec fn count_evictable(s: Seq<LRUKNode>) -> nat
    decreases s.len(),
{
    if s.len() == 0 {
        0
    } else {
        count_evictable(s.drop_last()) + (if s.last().is_evictable {
            1nat
        } else {
            0nat
        })
    }
}

proof fn lemma_index_of(s: Seq<LRUKNode>, i: int)
    requires
        nodes_distinct(s),
        0 <= i < s.len(),
    ensures
        seq_tracks(s, s[i].frame_id),
        index_of(s, s[i].frame_id) == i,
        node_of(s, s[i].frame_id) == s[i],
{
    let f = s[i].frame_id;
    assert(seq_tracks(s, f));
    let j = index_of(s, f);
    assert(0 <= j < s.len() && s[j].frame_id == f);
    if i < j {
        assert(s[i].frame_id != s[j].frame_id);
    } else if j < i {
        assert(s[j].frame_id != s[i].frame_id);
    }
}

proof fn lemma_count_zero(s: Seq<LRUKNode>)
    ensures
        (count_evictable(s) == 0) <==> (forall|i: int|
            0 <= i < s.len() ==> !(#[trigger] s[i]).is_evictable),
    decreases s.len(),
{
    if s.len() > 0 {
        let t = s.drop_last();
        lemma_count_zero(t);
        assert(s.last() == s[s.len() - 1]);
        if count_evictable(s) == 0 {
            assert forall|i: int| 0 <= i < s.len() implies !(#[trigger] s[i]).is_evictable by {
                if i < s.len() - 1 {
                    assert(t[i] == s[i]);
                    assert(!t[i].is_evictable);
                }
            }
        } else {
            if forall|i: int| 0 <= i < s.len() ==> !(#[trigger] s[i]).is_evictable {
                assert forall|i: int| 0 <= i < t.len() implies !(#[trigger] t[i]).is_evictable by {
                    assert(t[i] == s[i]);
                }
                assert(count_evictable(t) == 0);
                assert(!s.last().is_evictable);
                assert(false);
            }
        }
    }
}

proof fn lemma_count_update(s: Seq<LRUKNode>, i: int, n: LRUKNode)
    requires
        0 <= i < s.len(),
    ensures
        count_evictable(s.update(i, n)) as int == count_evictable(s) as int - (if s[i].is_evictable {
            1int
        } else {
            0int
        }) + (if n.is_evictable {
            1int
        } else {
            0int
        }),
    decreases s.len(),
{
    let t = s.update(i, n);
    if i == s.len() - 1 {
        assert(t.drop_last() =~= s.drop_last());
        assert(t.last() == n);
    } else {
        lemma_count_update(s.drop_last(), i, n);
        assert(t.drop_last() =~= s.drop_last().update(i, n));
        assert(t.last() == s.last());
    }
}

proof fn lemma_count_push(s: Seq<LRUKNode>, n: LRUKNode)
    ensures
        count_evictable(s.push(n)) as int == count_evictable(s) as int + (if n.is_evictable {
            1int
        } else {
            0int
        }),
{
    assert(s.push(n).drop_last() =~= s);
    assert(s.push(n).last() == n);
}

proof fn lemma_count_remove(s: Seq<LRUKNode>, i: int)
    requires
        0 <= i < s.len(),
    ensures
        count_evictable(s.remove(i)) as int == count_evictable(s) as int - (if s[i].is_evictable {
            1int
        } else {
            0int
        }),
    decreases s.len(),
{
    if i == s.len() - 1 {
        assert(s.remove(i) =~= s.drop_last());
    } else {
        lemma_count_remove(s.drop_last(), i);
        assert(s.remove(i).drop_last() =~= s.drop_last().remove(i));
        assert(s.remove(i).last() == s.last());
    }
}

proof fn lemma_remove_node(s: Seq<LRUKNode>, i: int)
    requires
        nodes_distinct(s),
        0 <= i < s.len(),
    ensures
        nodes_distinct(s.remove(i)),
        !seq_tracks(s.remove(i), s[i].frame_id),
        forall|g: FrameId|
            g != s[i].frame_id ==> #[trigger] seq_tracks(s.remove(i), g) == seq_tracks(s, g),
        forall|g: FrameId|
            g != s[i].frame_id && seq_tracks(s, g) ==> #[trigger] node_of(s.remove(i), g)
                == node_of(s, g),
{
    let t = s.remove(i);
    assert(forall|j: int| 0 <= j < i ==> #[trigger] t[j] == s[j]);
    assert(forall|j: int| i <= j < t.len() ==> #[trigger] t[j] == s[j + 1]);
    assert forall|g: FrameId| g != s[i].frame_id implies #[trigger] seq_tracks(t, g)
        == seq_tracks(s, g) by {
        if seq_tracks(s, g) {
            let j = index_of(s, g);
            assert(0 <= j < s.len() && s[j].frame_id == g);
            if j < i {
                assert(t[j].frame_id == g);
            } else {
                assert(t[j - 1].frame_id == g);
            }
            assert(seq_tracks(t, g));
        }
        if seq_tracks(t, g) {
            let j = index_of(t, g);
            assert(0 <= j < t.len() && t[j].frame_id == g);
            if j < i {
                assert(s[j].frame_id == g);
            } else {
                assert(s[j + 1].frame_id == g);
            }
            assert(seq_tracks(s, g));
        }
    }
    assert forall|g: FrameId| g != s[i].frame_id && seq_tracks(s, g) implies #[trigger] node_of(
        t,
        g,
    ) == node_of(s, g) by {
        let j = index_of(s, g);
        assert(0 <= j < s.len() && s[j].frame_id == g);
        lemma_index_of(s, j);
        if j < i {
            assert(t[j].frame_id == g);
            lemma_index_of(t, j);
        } else {
            assert(j > i);
            assert(t[j - 1].frame_id == g);
            lemma_index_of(t, j - 1);
        }
    }
    if seq_tracks(t, s[i].frame_id) {
        let j = index_of(t, s[i].frame_id);
        assert(0 <= j < t.len() && t[j].frame_id == s[i].frame_id);
        if j < i {
            assert(s[j].frame_id == s[i].frame_id);
            assert(false);
        } else {
            assert(s[j + 1].frame_id == s[i].frame_id);
            assert(false);
        }
    }
}

impl LRUKEvictionPolicy {
    /// Creates an LRU-K policy that keeps the `k` most recent access
    /// timestamps per frame; `max_size` sizes the internal storage for the
    /// number of frames expected to be tracked at once.
    pub fn new(k: usize, max_size: usize) -> (r: LRUKEvictionPolicy)
        requires
            k >= 1,
        ensures
            r.wf(),
            r.k() == k,
            r.timestamp() == 0,
            r.evictable_count() == 0,
            forall|g: FrameId| !(#[trigger] r.tracks(g)),
            forall|g: FrameId| !(#[trigger] r.evictable(g)),
    {
        let nodes: Vec<LRUKNode> = Vec::with_capacity(max_size);
        LRUKEvictionPolicy { k, current_timestamp: 0, nodes }
    }

    /// The number of frames that can be evicted.
    pub fn size(&self) -> (r: usize)
        requires
            self.wf(),
        ensures
            r == self.evictable_count(),
    {
        let mut count: usize = 0;
        let mut i: usize = 0;
        proof {
            assert(self.nodes@.take(0) =~= Seq::<LRUKNode>::empty());
        }
        while i < self.nodes.len()
            invariant
                0 <= i <= self.nodes@.len(),
                count == count_evictable(self.nodes@.take(i as int)),
                count <= i,
            decreases self.nodes@.len() - i,
        {
            proof {
                let t = self.nodes@.take(i + 1);
                assert(t.drop_last() =~= self.nodes@.take(i as int));
                assert(t.last() == self.nodes@[i as int]);
            }
            if self.nodes[i].is_evictable {
                count = count + 1;
            }
            i = i + 1;
        }
        proof {
            assert(self.nodes@.take(self.nodes@.len() as int) =~= self.nodes@);
        }
        count
    }

    /// The current value of the policy-wide monotonic access counter.
    pub fn get_timestamp(&self) -> (r: u64)
        ensures
            r == self.timestamp(),
    {
        self.current_timestamp
    }

    /// Finds the position of a tracked frame in the node store.
    fn find(&self, frame_id: FrameId) -> (r: Option<usize>)
        ensures
            match r {
                Option::Some(i) => i < self.nodes@.len() && self.nodes@[i as int].frame_id
                    == frame_id,
                Option::None => !seq_tracks(self.nodes@, frame_id),
            },
    {
        let mut i: usize = 0;
        while i < self.nodes.len()
            invariant
                0 <= i <= self.nodes@.len(),
                forall|j: int| 0 <= j < i ==> (#[trigger] self.nodes@[j]).frame_id != frame_id,
            decreases self.nodes@.len() - i,
        {
            if self.nodes[i].frame_id == frame_id {
                return Some(i);
            }
            i = i + 1;
        }
        None
    }
}

impl EvictionPolicy for LRUKEvictionPolicy {
    closed spec fn wf(&self) -> bool {
        &&& self.k >= 1
        &&& nodes_distinct(self.nodes@)
        &&& forall|i: int|
            0 <= i < self.nodes@.len() ==> spec_node_wf(
                #[trigger] self.nodes@[i],
                self.k as int,
                self.current_timestamp,
            )
    }

    closed spec fn k(&self) -> int {
        self.k as int
    }

    closed spec fn timestamp(&self) -> u64 {
        self.current_timestamp
    }

    closed spec fn tracks(&self, frame_id: FrameId) -> bool {
        seq_tracks(self.nodes@, frame_id)
    }

    closed spec fn evictable(&self, frame_id: FrameId) -> bool {
        seq_tracks(self.nodes@, frame_id) && node_of(self.nodes@, frame_id).is_evictable
    }

    closed spec fn history(&self, frame_id: FrameId) -> Seq<u64> {
        node_of(self.nodes@, frame_id).history@
    }

    closed spec fn evictable_count(&self) -> nat {
        count_evictable(self.nodes@)
    }

    /// The victim ordering of LRU-K: largest backward k-distance first, with
    /// histories shorter than `k` counting as infinitely distant, and ties
    /// among those broken towards the least recent overall access.
    open spec fn preferred(&self, a: FrameId, b: FrameId) -> bool {
        lruk_preferred(self.history(a), self.history(b), self.k())
    }

    fn evict(&mut self) -> (r: Option<FrameId>) {
        let ghost s = self.nodes@;
        let k = self.k;
        let mut best: usize = 0;
        let mut found = false;
        let mut i: usize = 0;
        while i < self.nodes.len()
            invariant
                self.wf(),
                self.k == k,
                s == self.nodes@,
                0 <= i <= self.nodes@.len(),
                found ==> best < i && self.nodes@[best as int].is_evictable,
                found ==> forall|j: int|
                    0 <= j < i && (#[trigger] self.nodes@[j]).is_evictable && j != best
                        ==> !lruk_preferred(
                        self.nodes@[j].history@,
                        self.nodes@[best as int].history@,
                        k as int,
                    ),
                !found ==> forall|j: int|
                    0 <= j < i ==> !(#[trigger] self.nodes@[j]).is_evictable,
            decreases self.nodes@.len() - i,
        {
            if self.nodes[i].is_evictable {
                if !found {
                    best = i;
                    found = true;
                } else {
                    let candidate_wins = {
                        let a = &self.nodes[i];
                        let b = &self.nodes[best];
                        let a_inf = a.history.len() < k;
                        let b_inf = b.history.len() < k;
                        if a_inf != b_inf {
                            a_inf
                        } else {
                            let ra = if a_inf {
                                a.history[a.history.len() - 1]
                            } else {
                                a.history[0]
                            };
                            let rb = if b_inf {
                                b.history[b.history.len() - 1]
                            } else {
                                b.history[0]
                            };
                            ra < rb
                        }
                    };
                    if candidate_wins {
                        best = i;
                    }
                }
            }
            i = i + 1;
        }
        if found {
            let ghost bi = best as int;
            let node = self.nodes.remove(best);
            proof {
                lemma_index_of(s, bi);
                lemma_remove_node(s, bi);
                lemma_count_remove(s, bi);
                lemma_count_zero(s);
                assert(forall|j: int|
                    0 <= j < self.nodes@.len() ==> #[trigger] self.nodes@[j] == if j < bi {
                        s[j]
                    } else {
                        s[j + 1]
                    });
                assert forall|g: FrameId|
                    #[trigger] old(self).evictable(g) && g != node.frame_id implies !old(
                    self,
                ).preferred(g, node.frame_id) by {
                    let j = index_of(s, g);
                    assert(0 <= j < s.len() && s[j].frame_id == g);
                    lemma_index_of(s, j);
                    assert(s[j].is_evictable);
                    assert(j != bi);
                }
            }
            Some(node.frame_id)
        } else {
            proof {
                lemma_count_zero(s);
            }
            None
        }
    }

    fn record_access(&mut self, frame_id: FrameId, _access_type: AccessType) {
        let ghost s = self.nodes@;
        let now = self.current_timestamp;
        self.current_timestamp = now + 1;
        let k = self.k;
        match self.find(frame_id) {
            Some(i) => {
                proof {
                    lemma_index_of(s, i as int);
                }
                let node = &mut self.nodes[i];
                if node.history.len() == k {
                    node.history.remove(0);
                    proof {
                        assert(node.history@ =~= old(self).history(frame_id).skip(1));
                    }
                }
                node.history.push(now);
                proof {
                    let t = self.nodes@;
                    assert(t =~= s.update(i as int, t[i as int]));
                    lemma_count_update(s, i as int, t[i as int]);
                    lemma_index_of(t, i as int);
                    assert forall|g: FrameId| g != frame_id implies #[trigger] seq_tracks(t, g)
                        == seq_tracks(s, g) by {
                        if seq_tracks(s, g) {
                            let j = index_of(s, g);
                            assert(0 <= j < s.len() && s[j].frame_id == g);
                            assert(t[j].frame_id == g);
                        }
                        if seq_tracks(t, g) {
                            let j = index_of(t, g);
                            assert(0 <= j < t.len() && t[j].frame_id == g);
                            assert(s[j].frame_id == g);
                        }
                    }
                    assert forall|g: FrameId| g != frame_id && seq_tracks(s, g) implies
                        #[trigger] node_of(t, g) == node_of(s, g) by {
                        let j = index_of(s, g);
                        assert(0 <= j < s.len() && s[j].frame_id == g);
                        lemma_index_of(s, j);
                        assert(t[j] == s[j]);
                        lemma_index_of(t, j);
                    }
                }
            },
            None => {
                let mut history: Vec<u64> = Vec::new();
                history.push(now);
                self.nodes.push(LRUKNode { frame_id, is_evictable: false, history });
                proof {
                    let t = self.nodes@;
                    lemma_count_push(s, t.last());
                    lemma_index_of(t, t.len() - 1);
                    assert(self.history(frame_id) =~= seq![now]);
                    assert forall|g: FrameId| g != frame_id implies #[trigger] seq_tracks(t, g)
                        == seq_tracks(s, g) by {
                        if seq_tracks(s, g) {
                            let j = index_of(s, g);
                            assert(0 <= j < s.len() && s[j].frame_id == g);
                            assert(t[j].frame_id == g);
                        }
                        if seq_tracks(t, g) {
                            let j = index_of(t, g);
                            assert(0 <= j < t.len() && t[j].frame_id == g);
                            assert(j < s.len());
                            assert(s[j].frame_id == g);
                        }
                    }
                    assert forall|g: FrameId| g != frame_id && seq_tracks(s, g) implies
                        #[trigger] node_of(t, g) == node_of(s, g) by {
                        let j = index_of(s, g);
                        assert(0 <= j < s.len() && s[j].frame_id == g);
                        lemma_index_of(s, j);
                        assert(t[j] == s[j]);
                        lemma_index_of(t, j);
                    }
                }
            },
        }
    }

    fn set_evictable(&mut self, frame_id: FrameId, is_evictable: bool) -> (r: bool) {
        let ghost s = self.nodes@;
        match self.find(frame_id) {
            Some(i) => {
                proof {
                    lemma_index_of(s, i as int);
                }
                let node = &mut self.nodes[i];
                node.is_evictable = is_evictable;
                proof {
                    let t = self.nodes@;
                    assert(t =~= s.update(i as int, t[i as int]));
                    lemma_count_update(s, i as int, t[i as int]);
                    lemma_index_of(t, i as int);
                    assert forall|g: FrameId| g != frame_id implies #[trigger] seq_tracks(t, g)
                        == seq_tracks(s, g) by {
                        if seq_tracks(s, g) {
                            let j = index_of(s, g);
                            assert(0 <= j < s.len() && s[j].frame_id == g);
                            assert(t[j].frame_id == g);
                        }
                        if seq_tracks(t, g) {
                            let j = index_of(t, g);
                            assert(0 <= j < t.len() && t[j].frame_id == g);
                            assert(s[j].frame_id == g);
                        }
                    }
                    assert forall|g: FrameId| g != frame_id && seq_tracks(s, g) implies
                        #[trigger] node_of(t, g) == node_of(s, g) by {
                        let j = index_of(s, g);
                        assert(0 <= j < s.len() && s[j].frame_id == g);
                        lemma_index_of(s, j);
                        assert(t[j] == s[j]);
                        lemma_index_of(t, j);
                    }
                    assert(seq_tracks(t, frame_id));
                }
                true
            },
            None => false,
        }
    }

    fn remove(&mut self, frame_id: FrameId) {
        let ghost s = self.nodes@;
        match self.find(frame_id) {
            Some(i) => {
                proof {
                    lemma_index_of(s, i as int);
                    lemma_remove_node(s, i as int);
                    lemma_count_remove(s, i as int);
                }
                self.nodes.remove(i);
                proof {
                    assert(forall|j: int|
                        0 <= j < self.nodes@.len() ==> #[trigger] self.nodes@[j] == if j < i as int {
                            s[j]
                        } else {
                            s[j + 1]
                        });
                }
            },
            None => {
            },
        }
    }
}

/// A frame flagged evictable makes the policy's evictable count positive,
/// so eviction is owed a victim while any frame is evictable.
pub proof fn lemma_evictable_frame_counts(p: &LRUKEvictionPolicy, frame_id: FrameId)
    requires
        p.evictable(frame_id),
    ensures
        p.evictable_count() > 0,
{
    let i = index_of(p.nodes@, frame_id);
    assert(0 <= i < p.nodes@.len() && p.nodes@[i].frame_id == frame_id);
    assert(p.nodes@[i].is_evictable);
    lemma_count_zero(p.nodes@);
    if count_evictable(p.nodes@) == 0 {
        assert(!p.nodes@[i].is_evictable);
    }
}

/// A frame the policy does not track is never evictable.
pub proof fn lemma_untracked_not_evictable(p: &LRUKEvictionPolicy, frame_id: FrameId)
    requires
        !p.tracks(frame_id),
    ensures
        !p.evictable(frame_id),
{
}

/// The history of any tracked frame holds between 1 and `k` timestamps.
pub proof fn lemma_history_length_bounded(p: &LRUKEvictionPolicy, frame_id: FrameId)
    requires
        p.wf(),
        p.tracks(frame_id),
    ensures
        1 <= p.history(frame_id).len() <= p.k(),
{
    let i = index_of(p.nodes@, frame_id);
    assert(0 <= i < p.nodes@.len() && p.nodes@[i].frame_id == frame_id);
    assert(spec_node_wf(p.nodes@[i], p.k as int, p.current_timestamp));
}

/// The recorded timestamps of any tracked frame are strictly increasing, and
/// all of them lie strictly below the policy's current timestamp; since
/// `record_access` appends the current timestamp and then advances it, every
/// newly recorded access is strictly later than every earlier one.
pub proof fn lemma_history_strictly_increasing(p: &LRUKEvictionPolicy, frame_id: FrameId)
    requires
        p.wf(),
        p.tracks(frame_id),
    ensures
        forall|i: int, j: int|
            #![trigger p.history(frame_id)[i], p.history(frame_id)[j]]
            0 <= i < j < p.history(frame_id).len() ==> p.history(frame_id)[i] < p.history(
                frame_id,
            )[j],
        forall|i: int|
            0 <= i < p.history(frame_id).len() ==> #[trigger] p.history(frame_id)[i]
                < p.timestamp(),
{
    let i = index_of(p.nodes@, frame_id);
    assert(0 <= i < p.nodes@.len() && p.nodes@[i].frame_id == frame_id);
    assert(spec_node_wf(p.nodes@[i], p.k as int, p.current_timestamp));
}

} // verus!
