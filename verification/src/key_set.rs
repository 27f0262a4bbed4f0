//! A set of patch keys that remembers insertion order.
//!
//! Used wherever the streamer keeps a set of keys: the patches the camera
//! currently wants, the bundles known to be missing on disk, the keys that
//! already have a load task in flight.
use vstd::prelude::*;

use crate::patch_key::PatchKey;

verus! {

/// A duplicate-free sequence of keys.
pub struct PatchKeySet {
    keys: Vec<PatchKey>,
}

impl View for PatchKeySet {
    type V = Seq<PatchKey>;

    closed spec fn view(&self) -> Seq<PatchKey> {
        self.keys@
    }
}

impl PatchKeySet {
    /// Well-formedness: the stored sequence never repeats a key.
    pub open spec fn wf(&self) -> bool {
        self@.no_duplicates()
    }

    /// The keys as a mathematical set.
    pub open spec fn set(&self) -> Set<PatchKey> {
        self@.to_set()
    }

    /// An empty set.
    pub fn new() -> (r: PatchKeySet)
        ensures
            r.wf(),
            r@ == Seq::<PatchKey>::empty(),
    {
        PatchKeySet { keys: Vec::new() }
    }

    /// Number of keys.
    pub fn len(&self) -> (r: usize)
        ensures
            r == self@.len(),
    {
        self.keys.len()
    }

    /// The keys in insertion order.
    pub fn keys(&self) -> (r: &Vec<PatchKey>)
        ensures
            r@ == self@,
    {
        &self.keys
    }

    /// Whether `key` is a member.
    pub fn contains(&self, key: &PatchKey) -> (r: bool)
        ensures
            r == self@.contains(*key),
    {
        vec_contains(&self.keys, key)
    }

    /// Adds `key` at the end unless it is already present; returns whether it was added.
    pub fn insert(&mut self, key: PatchKey) -> (r: bool)
        requires
            old(self).wf(),
        ensures
            final(self).wf(),
            r == !old(self)@.contains(key),
            r ==> final(self)@ == old(self)@.push(key),
            !r ==> final(self)@ == old(self)@,
    {
        if vec_contains(&self.keys, &key) {
            false
        } else {
            let ghost before = self.keys@;
            self.keys.push(key);
            proof {
                lemma_push_keeps_unique(before, key);
            }
            true
        }
    }

    /// Removes `key` if present, keeping the order of the others; returns whether it was present.
    pub fn remove(&mut self, key: &PatchKey) -> (r: bool)
        requires
            old(self).wf(),
        ensures
            final(self).wf(),
            r == old(self)@.contains(*key),
            final(self)@ == old(self)@.filter(|k: PatchKey| k != *key),
    {
        let ghost before = self.keys@;
        let found = vec_contains(&self.keys, key);
        let kept = filter_out(&self.keys, key);
        proof {
            lemma_filter_keeps_unique(before, |k: PatchKey| k != *key);
        }
        self.keys = kept;
        found
    }

    /// Removes every key.
    pub fn clear(&mut self)
        ensures
            final(self).wf(),
            final(self)@ == Seq::<PatchKey>::empty(),
    {
        self.keys = Vec::new();
    }
}

/// Whether `v` holds `key`.
pub fn vec_contains(v: &Vec<PatchKey>, key: &PatchKey) -> (r: bool)
    ensures
        r == v@.contains(*key),
{
    let n = v.len();
    for i in 0..n
        invariant
            n == v@.len(),
            forall|j: int| 0 <= j < i ==> v@[j] != *key,
    {
        if v[i] == *key {
            assert(v@[i as int] == *key);
            return true;
        }
    }
    false
}

/// `v` without the occurrences of `key`, order kept.
fn filter_out(v: &Vec<PatchKey>, key: &PatchKey) -> (r: Vec<PatchKey>)
    ensures
        r@ == v@.filter(|k: PatchKey| k != *key),
{
    let ghost pred = |k: PatchKey| k != *key;
    let mut out: Vec<PatchKey> = Vec::new();
    let n = v.len();
    for i in 0..n
        invariant
            n == v@.len(),
            pred == (|k: PatchKey| k != *key),
            out@ == v@.take(i as int).filter(pred),
    {
        let ghost t = v@.take(i + 1);
        assert(t.drop_last() =~= v@.take(i as int));
        assert(t.last() == v@[i as int]);
        assert(t.filter(pred) == (if pred(t.last()) {
            t.drop_last().filter(pred).push(t.last())
        } else {
            t.drop_last().filter(pred)
        })) by {
            reveal(Seq::filter);
        }
        if v[i] != *key {
            out.push(v[i]);
        }
    }
    assert(v@.take(n as int) =~= v@);
    out
}

/// Appending a fresh element keeps a sequence free of duplicates.
pub proof fn lemma_push_keeps_unique(s: Seq<PatchKey>, k: PatchKey)
    requires
        s.no_duplicates(),
        !s.contains(k),
    ensures
        s.push(k).no_duplicates(),
{
    assert forall|i: int, j: int| 0 <= i < s.push(k).len() && 0 <= j < s.push(k).len() && i != j implies s.push(
        k,
    )[i] != s.push(k)[j] by {
        if i < s.len() && j < s.len() {
        } else if i < s.len() {
            assert(s.contains(s[i]));
        } else {
            assert(s.contains(s[j]));
        }
    }
}

/// Filtering keeps a sequence free of duplicates.
pub proof fn lemma_filter_keeps_unique(s: Seq<PatchKey>, p: spec_fn(PatchKey) -> bool)
    requires
        s.no_duplicates(),
    ensures
        s.filter(p).no_duplicates(),
    decreases s.len(),
{
    broadcast use vstd::seq_lib::group_seq_properties;
    reveal(Seq::filter);
    if s.len() > 0 {
        let rest = s.drop_last();
        assert(rest.no_duplicates());
        lemma_filter_keeps_unique(rest, p);
        if p(s.last()) {
            assert(!rest.contains(s.last())) by {
                if rest.contains(s.last()) {
                    let j = choose|j: int| 0 <= j < rest.len() && rest[j] == s.last();
                    assert(s[j] == s[s.len() - 1]);
                }
            }
            if rest.filter(p).contains(s.last()) {
                rest.lemma_filter_contains_rev(p, s.last());
            }
            lemma_push_keeps_unique(rest.filter(p), s.last());
        }
    }
}

} // verus!
