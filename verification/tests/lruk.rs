use page_cache::eviction::{AccessType, EvictionPolicy};
use page_cache::lruk_eviction::LRUKEvictionPolicy;

#[test]
fn test_lruk_replacer() {
    let n_frames = 7;
    let k = 2;

    let mut lru_replacer = LRUKEvictionPolicy::new(k, n_frames);

    // Add six frames to the replacer. We now have frames [1, 2, 3, 4, 5]. We set frame 6 as non-evictable.
    lru_replacer.record_access(1, AccessType::Lookup);
    lru_replacer.record_access(2, AccessType::Lookup);
    lru_replacer.record_access(3, AccessType::Lookup);
    lru_replacer.record_access(4, AccessType::Lookup);
    lru_replacer.record_access(5, AccessType::Lookup);
    lru_replacer.record_access(6, AccessType::Lookup);
    assert!(lru_replacer.set_evictable(1, true));
    assert!(lru_replacer.set_evictable(2, true));
    assert!(lru_replacer.set_evictable(3, true));
    assert!(lru_replacer.set_evictable(4, true));
    assert!(lru_replacer.set_evictable(5, true));
    assert!(lru_replacer.set_evictable(6, false));

    // The size of the replacer is the number of frames that can be evicted, _not_ the total number of frames entered.
    assert_eq!(5, lru_replacer.size());

    // Record an access for frame 1. Now frame 1 has two accesses total.
    lru_replacer.record_access(1, AccessType::Lookup);
    // All other frames now share the maximum backward k-distance. Since we use timestamps to break ties, where the first
    // to be evicted is the frame with the oldest timestamp, the order of eviction should be [2, 3, 4, 5, 1].

    // Evict three pages from the replacer.
    // To break ties, we use LRU with respect to the oldest timestamp, or the least recently used frame.
    assert_eq!(Some(2), lru_replacer.evict());
    assert_eq!(Some(3), lru_replacer.evict());
    assert_eq!(Some(4), lru_replacer.evict());
    assert_eq!(2, lru_replacer.size());

    // Now the replacer has the frames [5, 1].

    // Insert new frames [3, 4], and update the access history for 5. Now, the ordering is [3, 1, 5, 4].
    lru_replacer.record_access(3, AccessType::Lookup);
    lru_replacer.record_access(4, AccessType::Lookup);
    lru_replacer.record_access(5, AccessType::Lookup);
    lru_replacer.record_access(4, AccessType::Lookup);
    lru_replacer.set_evictable(3, true);
    lru_replacer.set_evictable(4, true);
    assert_eq!(4, lru_replacer.size());

    // Look for a frame to evict. We expect frame 3 to be evicted next.
    assert_eq!(Some(3), lru_replacer.evict());
    assert_eq!(3, lru_replacer.size());

    // Set 6 to be evictable. 6 Should be evicted next since it has the maximum backward k-distance.
    lru_replacer.set_evictable(6, true);
    assert_eq!(4, lru_replacer.size());
    assert_eq!(Some(6), lru_replacer.evict());
    assert_eq!(3, lru_replacer.size());

    // Mark frame 1 as non-evictable. We now have [5, 4].
    lru_replacer.set_evictable(1, false);

    // We expect frame 5 to be evicted next.
    assert_eq!(2, lru_replacer.size());
    assert_eq!(Some(5), lru_replacer.evict());
    assert_eq!(1, lru_replacer.size());

    // Update the access history for frame 1 and make it evictable. Now we have [4, 1].
    lru_replacer.record_access(1, AccessType::Lookup);
    lru_replacer.record_access(1, AccessType::Lookup);
    lru_replacer.set_evictable(1, true);
    assert_eq!(2, lru_replacer.size());

    // Evict the last two frames.
    assert_eq!(Some(4), lru_replacer.evict());
    assert_eq!(1, lru_replacer.size());
    assert_eq!(Some(1), lru_replacer.evict());
    assert_eq!(0, lru_replacer.size());

    // Insert frame 1 again and mark it as non-evictable.
    lru_replacer.record_access(1, AccessType::Lookup);
    lru_replacer.set_evictable(1, false);
    assert_eq!(0, lru_replacer.size());

    // A failed eviction should not change the size of the replacer.
    let frame = lru_replacer.evict();
    assert_eq!(false, frame.is_some());

    // Mark frame 1 as evictable again and evict it.
    lru_replacer.set_evictable(1, true);
    assert_eq!(1, lru_replacer.size());
    assert_eq!(Some(1), lru_replacer.evict());
    assert_eq!(0, lru_replacer.size());

    // There is nothing left in the replacer, so make sure this doesn't do something strange.
    let frame = lru_replacer.evict();
    assert_eq!(false, frame.is_some());
    assert_eq!(0, lru_replacer.size());

    // Setting a non-existent frame's evictability signals the failure.
    assert!(!lru_replacer.set_evictable(6, false));
    assert!(!lru_replacer.set_evictable(6, true));
}

#[test]
fn test_lruk_empty_policy_evicts_nothing() {
    let mut policy = LRUKEvictionPolicy::new(2, 4);
    assert_eq!(policy.size(), 0);
    assert_eq!(policy.evict(), None);
}

#[test]
fn test_lruk_remove_drops_the_frame() {
    let mut policy = LRUKEvictionPolicy::new(2, 4);
    policy.record_access(3, AccessType::Scan);
    assert!(policy.set_evictable(3, true));
    assert_eq!(policy.size(), 1);
    policy.remove(3);
    assert_eq!(policy.size(), 0);
    assert_eq!(policy.evict(), None);
}

#[test]
fn test_lruk_size_counts_only_evictable_frames() {
    let mut policy = LRUKEvictionPolicy::new(2, 8);
    policy.record_access(1, AccessType::Lookup);
    policy.record_access(2, AccessType::Lookup);
    policy.record_access(3, AccessType::Lookup);
    assert_eq!(policy.size(), 0);
    policy.set_evictable(1, true);
    policy.set_evictable(2, true);
    assert_eq!(policy.size(), 2);
    policy.set_evictable(2, false);
    assert_eq!(policy.size(), 1);
}

#[test]
fn test_lruk_full_history_beats_infinite_only_when_none_infinite() {
    // Frames with fewer than k recorded accesses count as infinitely
    // distant and are preferred over frames with a full history.
    let mut policy = LRUKEvictionPolicy::new(2, 4);
    policy.record_access(1, AccessType::Lookup);
    policy.record_access(1, AccessType::Lookup);
    policy.record_access(2, AccessType::Lookup);
    policy.set_evictable(1, true);
    policy.set_evictable(2, true);
    assert_eq!(policy.evict(), Some(2));
    assert_eq!(policy.evict(), Some(1));
    assert_eq!(policy.evict(), None);
}

#[test]
fn test_record_access_advances_the_timestamp() {
    let mut policy = LRUKEvictionPolicy::new(2, 4);
    assert_eq!(policy.get_timestamp(), 0);
    policy.record_access(1, AccessType::Lookup);
    assert_eq!(policy.get_timestamp(), 1);
    policy.record_access(2, AccessType::Index);
    assert_eq!(policy.get_timestamp(), 2);
    policy.record_access(1, AccessType::Scan);
    assert_eq!(policy.get_timestamp(), 3);
}
