//! Queue of patch keys waiting to be loaded.
//!
//! Keys are unique in the queue.  The scheduler repeatedly pops the key with
//! the lowest priority value (the first one on ties); popping swaps the last
//! key into the freed slot.
use vstd::prelude::*;

use crate::key_set::{PatchKeySet, vec_contains, lemma_push_keeps_unique, lemma_filter_keeps_unique};
use crate::patch_key::PatchKey;

verus! {

/// Soft cap on queued requests enforced once per frame.
pub const MAX_QUEUED_REQUESTS: usize = 256;

/// Requests in arrival order (modulo the slot swaps of popping).
pub struct PatchRequestQueue {
    pending: Vec<PatchKey>,
}

impl View for PatchRequestQueue {
    type V = Seq<PatchKey>;

    closed spec fn view(&self) -> Seq<PatchKey> {
        self.pending@
    }
}

/// The queue after a request for `k`: unchanged if `k` is already waiting.
pub open spec fn enqueued(s: Seq<PatchKey>, k: PatchKey) -> Seq<PatchKey> {
    if s.contains(k) {
        s
    } else {
        s.push(k)
    }
}

/// `b` is the first index holding the smallest priority in `pr`.
pub open spec fn is_first_min(pr: Seq<i64>, b: int) -> bool {
    &&& 0 <= b < pr.len()
    &&& forall|j: int| 0 <= j < b ==> pr[b] < #[trigger] pr[j]
    &&& forall|j: int| 0 <= j < pr.len() ==> pr[b] <= #[trigger] pr[j]
}

/// The sequence after removing slot `b` by moving the last element into it.
pub open spec fn swap_removed(s: Seq<PatchKey>, b: int) -> Seq<PatchKey> {
    s.update(b, s.last()).drop_last()
}

/// What remains after popping the front slot until at most `limit` keys are left:
/// slot `limit` moves to the front and is followed by slots `1 .. limit`.
pub open spec fn drained(s: Seq<PatchKey>, limit: int) -> Seq<PatchKey> {
    if s.len() <= limit {
        s
    } else if limit <= 0 {
        Seq::empty()
    } else {
        seq![s[limit]] + s.subrange(1, limit)
    }
}

impl PatchRequestQueue {
    /// Well-formedness: no key waits twice.
    pub open spec fn wf(&self) -> bool {
        self@.no_duplicates()
    }

    /// An empty queue.
    pub fn new() -> (r: PatchRequestQueue)
        ensures
            r.wf(),
            r@ == Seq::<PatchKey>::empty(),
    {
        PatchRequestQueue { pending: Vec::new() }
    }

    /// Number of waiting requests.
    pub fn len(&self) -> (r: usize)
        ensures
            r == self@.len(),
    {
        self.pending.len()
    }

    /// The waiting keys, slot by slot.
    pub fn pending(&self) -> (r: &Vec<PatchKey>)
        ensures
            r@ == self@,
    {
        &self.pending
    }

    /// Whether a request for `key` is waiting.
    pub fn contains(&self, key: &PatchKey) -> (r: bool)
        ensures
            r == self@.contains(*key),
    {
        vec_contains(&self.pending, key)
    }

    /// Requests `key` unless it is already waiting.
    pub fn enqueue(&mut self, key: PatchKey)
        requires
            old(self).wf(),
        ensures
            final(self).wf(),
            final(self)@ == enqueued(old(self)@, key),
    {
        if !vec_contains(&self.pending, &key) {
            let ghost before = self.pending@;
            self.pending.push(key);
            proof {
                lemma_push_keeps_unique(before, key);
            }
        }
    }

    /// Removes and returns the waiting key with the smallest priority (the
    /// first such slot on ties), together with that priority.  `priorities[i]`
    /// is the priority of the key in slot `i` of `pending()`.
    pub fn pop_best(&mut self, priorities: &Vec<i64>) -> (r: Option<(PatchKey, i64)>)
        requires
            old(self).wf(),
            priorities@.len() == old(self)@.len(),
        ensures
            final(self).wf(),
            old(self)@.len() == 0 ==> r is None && final(self)@ == old(self)@,
            old(self)@.len() > 0 ==> exists|b: int|
                #[trigger] is_first_min(priorities@, b) && r == Some((old(self)@[b], priorities@[b]))
                    && final(self)@ == swap_removed(old(self)@, b),
            r matches Some((k, _)) ==> old(self)@.contains(k) && !final(self)@.contains(k)
                && final(self)@.to_set() == old(self)@.to_set().remove(k),
    {
        let n = self.pending.len();
        if n == 0 {
            return None;
        }
        let mut best_index: usize = 0;
        let mut best_priority: i64 = priorities[0];
        let mut index: usize = 1;
        while index < n
            invariant
                n == priorities@.len(),
                1 <= index <= n,
                best_index < index,
                best_priority == priorities@[best_index as int],
                forall|j: int| 0 <= j < best_index ==> best_priority < #[trigger] priorities@[j],
                forall|j: int| 0 <= j < index ==> best_priority <= #[trigger] priorities@[j],
            decreases n - index,
        {
            let priority = priorities[index];
            if priority < best_priority {
                best_index = index;
                best_priority = priority;
            }
            index += 1;
        }
        let ghost before = self.pending@;
        assert(is_first_min(priorities@, best_index as int));
        let removed = self.pending.swap_remove(best_index);
        proof {
            lemma_swap_remove_unique(before, best_index as int);
        }
        Some((removed, best_priority))
    }

    /// Drops every waiting key that `allowed` does not hold, keeping the order of the rest.
    pub fn retain_keys(&mut self, allowed: &PatchKeySet)
        requires
            old(self).wf(),
        ensures
            final(self).wf(),
            final(self)@ == old(self)@.filter(|k: PatchKey| allowed@.contains(k)),
    {
        let ghost pred = |k: PatchKey| allowed@.contains(k);
        let ghost before = self.pending@;
        let mut kept: Vec<PatchKey> = Vec::new();
        let n = self.pending.len();
        for i in 0..n
            invariant
                n == self.pending@.len(),
                pred == (|k: PatchKey| allowed@.contains(k)),
                kept@ == self.pending@.take(i as int).filter(pred),
        {
            let ghost t = self.pending@.take(i + 1);
            assert(t.drop_last() =~= self.pending@.take(i as int));
            assert(t.filter(pred) == (if pred(t.last()) {
                t.drop_last().filter(pred).push(t.last())
            } else {
                t.drop_last().filter(pred)
            })) by {
                reveal(Seq::filter);
            }
            let key = self.pending[i];
            if allowed.contains(&key) {
                kept.push(key);
            }
        }
        assert(self.pending@.take(n as int) =~= self.pending@);
        proof {
            lemma_filter_keeps_unique(before, pred);
        }
        self.pending = kept;
    }

    /// Removes every waiting request.
    pub fn clear(&mut self)
        ensures
            final(self).wf(),
            final(self)@ == Seq::<PatchKey>::empty(),
    {
        self.pending = Vec::new();
    }
}

/// Per-frame trim: while more than `MAX_QUEUED_REQUESTS` keys wait, pop with
/// all priorities equal, which removes the front slot each time.
pub fn drain_requests_system(queue: &mut PatchRequestQueue)
    requires
        old(queue).wf(),
    ensures
        final(queue).wf(),
        final(queue)@ == drained(old(queue)@, MAX_QUEUED_REQUESTS as int),
        final(queue)@.len() == if old(queue)@.len() <= MAX_QUEUED_REQUESTS {
            old(queue)@.len()
        } else {
            MAX_QUEUED_REQUESTS as nat
        },
{
    let ghost s = queue@;
    let limit = MAX_QUEUED_REQUESTS;
    if queue.len() <= limit {
        return;
    }
    while queue.len() > limit
        invariant
            queue.wf(),
            limit == MAX_QUEUED_REQUESTS,
            limit <= queue@.len() <= s.len(),
            queue@.len() == s.len() ==> queue@ == s,
            queue@.len() < s.len() ==> queue@ =~= seq![s[queue@.len() as int]] + s.subrange(
                1,
                queue@.len() as int,
            ),
        decreases queue@.len(),
    {
        let ghost cur = queue@;
        let zeros = zero_priorities(queue.len());
        let popped = queue.pop_best(&zeros);
        proof {
            let b = choose|b: int|
                #[trigger] is_first_min(zeros@, b) && popped == Some((cur[b], zeros@[b])) && queue@
                    == swap_removed(cur, b);
            if b > 0 {
                assert(zeros@[b] < zeros@[0]);
            }
            assert(b == 0);
            assert(queue@ =~= seq![s[queue@.len() as int]] + s.subrange(1, queue@.len() as int));
        }
    }
}

/// `n` zero priorities.
fn zero_priorities(n: usize) -> (r: Vec<i64>)
    ensures
        r@.len() == n,
        forall|i: int| 0 <= i < n ==> r@[i] == 0,
{
    let mut r: Vec<i64> = Vec::new();
    for i in 0..n
        invariant
            r@.len() == i,
            forall|j: int| 0 <= j < i ==> r@[j] == 0,
    {
        r.push(0);
    }
    r
}

/// Swap-removing a slot keeps the keys unique and removes exactly that key.
proof fn lemma_swap_remove_unique(s: Seq<PatchKey>, b: int)
    requires
        s.no_duplicates(),
        0 <= b < s.len(),
    ensures
        swap_removed(s, b).no_duplicates(),
        !swap_removed(s, b).contains(s[b]),
        swap_removed(s, b).to_set() == s.to_set().remove(s[b]),
{
    let r = swap_removed(s, b);
    let last = s.len() - 1;
    assert forall|i: int| 0 <= i < r.len() implies #[trigger] r[i] != s[b] by {
        if i == b {
            assert(r[i] == s[last]);
        } else {
            assert(r[i] == s[i]);
        }
    }
    assert forall|x: PatchKey| r.to_set().contains(x) <==> s.to_set().remove(s[b]).contains(x) by {
        if r.contains(x) {
            let i = choose|i: int| 0 <= i < r.len() && r[i] == x;
            if i == b {
                assert(s[last] == x);
            } else {
                assert(s[i] == x);
            }
        }
        if s.contains(x) && x != s[b] {
            let i = choose|i: int| 0 <= i < s.len() && s[i] == x;
            if i == last {
                assert(r[b] == x);
            } else {
                assert(r[i] == x);
            }
        }
    }
    assert(r.to_set() =~= s.to_set().remove(s[b]));
}

/// Requesting a key twice has the effect of requesting it once.
pub proof fn lemma_enqueue_idempotent(s: Seq<PatchKey>, k: PatchKey)
    ensures
        enqueued(enqueued(s, k), k) == enqueued(s, k),
        enqueued(s, k).contains(k),
{
    assert(s.push(k)[s.len() as int] == k);
}

/// Popping after requesting a fresh key with the lowest priority of all
/// returns that key, and the queue holds the same keys as before the request.
pub proof fn lemma_enqueue_then_pop_lowest(s: Seq<PatchKey>, k: PatchKey, pr: Seq<i64>, b: int)
    requires
        s.no_duplicates(),
        !s.contains(k),
        pr.len() == s.len() + 1,
        forall|j: int| 0 <= j < s.len() ==> pr[s.len() as int] < #[trigger] pr[j],
        is_first_min(pr, b),
    ensures
        b == s.len(),
        enqueued(s, k)[b] == k,
        swap_removed(enqueued(s, k), b) == s,
{
    if b < s.len() {
        assert(pr[b] <= pr[s.len() as int]);
        assert(pr[s.len() as int] < pr[b]);
    }
    assert(swap_removed(s.push(k), b) =~= s);
}

} // verus!
