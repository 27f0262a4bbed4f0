use planet_surface::key_set::PatchKeySet;
use planet_surface::patch_key::PatchKey;
use planet_surface::request_queue::{drain_requests_system, PatchRequestQueue, MAX_QUEUED_REQUESTS};

fn key(face: u8, ix: u32) -> PatchKey {
    PatchKey { face, level: 3, ix, iy: 0 }
}

#[test]
fn enqueue_twice_queues_once() {
    let mut q = PatchRequestQueue::new();
    q.enqueue(key(0, 1));
    q.enqueue(key(0, 1));
    assert_eq!(q.len(), 1);
    assert!(q.contains(&key(0, 1)));
}

#[test]
fn pop_best_takes_lowest_priority_and_swaps_last_in() {
    let mut q = PatchRequestQueue::new();
    q.enqueue(key(0, 0));
    q.enqueue(key(0, 1));
    q.enqueue(key(0, 2));
    q.enqueue(key(0, 3));
    let popped = q.pop_best(&vec![5, -2, 7, 1]);
    assert_eq!(popped, Some((key(0, 1), -2)));
    assert_eq!(q.pending(), &vec![key(0, 0), key(0, 3), key(0, 2)]);
}

#[test]
fn pop_best_prefers_first_slot_on_ties() {
    let mut q = PatchRequestQueue::new();
    q.enqueue(key(1, 0));
    q.enqueue(key(1, 1));
    q.enqueue(key(1, 2));
    assert_eq!(q.pop_best(&vec![3, 1, 1]), Some((key(1, 1), 1)));
}

#[test]
fn pop_best_on_empty_queue_is_none() {
    let mut q = PatchRequestQueue::new();
    assert_eq!(q.pop_best(&Vec::new()), None);
    assert_eq!(q.len(), 0);
}

#[test]
fn enqueue_then_pop_gives_back_the_only_key() {
    let mut q = PatchRequestQueue::new();
    q.enqueue(key(2, 9));
    assert_eq!(q.pop_best(&vec![11]), Some((key(2, 9), 11)));
    assert_eq!(q.len(), 0);
}

#[test]
fn retain_keys_drops_unwanted_in_order() {
    let mut q = PatchRequestQueue::new();
    for i in 0..5u32 {
        q.enqueue(key(0, i));
    }
    let mut allowed = PatchKeySet::new();
    allowed.insert(key(0, 3));
    allowed.insert(key(0, 1));
    q.retain_keys(&allowed);
    assert_eq!(q.pending(), &vec![key(0, 1), key(0, 3)]);
}

#[test]
fn drain_trims_to_the_cap_by_front_pops() {
    let mut q = PatchRequestQueue::new();
    let total = MAX_QUEUED_REQUESTS as u32 + 3;
    for i in 0..total {
        q.enqueue(key(0, i));
    }
    drain_requests_system(&mut q);
    assert_eq!(q.len(), MAX_QUEUED_REQUESTS);
    // Each pop takes the front slot and moves the last key into it.
    assert_eq!(q.pending()[0], key(0, total - 3));
    assert_eq!(q.pending()[1], key(0, 1));
    assert_eq!(q.pending()[MAX_QUEUED_REQUESTS - 1], key(0, total - 4));
}

#[test]
fn drain_leaves_short_queue_alone() {
    let mut q = PatchRequestQueue::new();
    q.enqueue(key(0, 0));
    q.enqueue(key(0, 1));
    drain_requests_system(&mut q);
    assert_eq!(q.pending(), &vec![key(0, 0), key(0, 1)]);
    q.clear();
    assert_eq!(q.len(), 0);
}
