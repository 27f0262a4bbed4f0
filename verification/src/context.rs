//! Which planet context layer the camera is in, and how patch requests are
//! admitted when the wanted set changes.
use vstd::prelude::*;

use crate::key_set::PatchKeySet;
use crate::patch_key::PatchKey;
use crate::request_queue::{PatchRequestQueue, enqueued};

verus! {

/// High-level context around the planet camera.
#[derive(Clone, Copy, Debug, PartialEq, Eq, Structural)]
pub enum PlanetContextLayer {
    Orbit,
    Approach,
    Surface,
}

/// Altitude comparisons against the layer thresholds, taken by the caller.
#[derive(Clone, Copy, Debug)]
pub struct LayerReadings {
    /// Altitude is at or below the orbit-to-approach threshold.
    pub within_approach: bool,
    /// Altitude is at or below the approach-to-surface threshold.
    pub within_surface: bool,
    /// Altitude is above the orbit-to-approach threshold plus its hysteresis margin.
    pub beyond_approach_exit: bool,
    /// Altitude is above the approach-to-surface threshold plus its hysteresis margin.
    pub beyond_surface_exit: bool,
}

/// The layer that follows `current` given the altitude readings.
pub open spec fn layer_after(current: PlanetContextLayer, r: LayerReadings) -> PlanetContextLayer {
    match current {
        PlanetContextLayer::Orbit => if r.within_approach {
            PlanetContextLayer::Approach
        } else {
            PlanetContextLayer::Orbit
        },
        PlanetContextLayer::Approach => if r.within_surface {
            PlanetContextLayer::Surface
        } else if r.beyond_approach_exit {
            PlanetContextLayer::Orbit
        } else {
            PlanetContextLayer::Approach
        },
        PlanetContextLayer::Surface => if r.beyond_surface_exit {
            PlanetContextLayer::Approach
        } else {
            PlanetContextLayer::Surface
        },
    }
}

/// How many fresh patch requests a layer may issue per frame.
pub open spec fn request_cap(layer: PlanetContextLayer) -> nat {
    match layer {
        PlanetContextLayer::Surface => 40,
        PlanetContextLayer::Approach => 24,
        PlanetContextLayer::Orbit => 0,
    }
}

/// Whether a layer streams surface patches.
pub open spec fn layer_streams(layer: PlanetContextLayer) -> bool {
    layer == PlanetContextLayer::Approach || layer == PlanetContextLayer::Surface
}

/// Walks `keys` in order; keys already `known` stay, fresh keys are admitted
/// while fewer than `cap` have been admitted and dropped afterwards.
/// Returns the kept keys and, separately, the admitted ones.
pub open spec fn admission(keys: Seq<PatchKey>, known: Seq<PatchKey>, cap: nat) -> (Seq<PatchKey>, Seq<PatchKey>)
    decreases keys.len(),
{
    if keys.len() == 0 {
        (Seq::empty(), Seq::empty())
    } else {
        let (kept, adm) = admission(keys.drop_last(), known, cap);
        let k = keys.last();
        if known.contains(k) {
            (kept.push(k), adm)
        } else if adm.len() < cap {
            (kept.push(k), adm.push(k))
        } else {
            (kept, adm)
        }
    }
}

/// The keys of `keys` that `known` does not hold, in order.
pub open spec fn fresh_keys(keys: Seq<PatchKey>, known: Seq<PatchKey>) -> Seq<PatchKey> {
    keys.filter(|k: PatchKey| !known.contains(k))
}

/// `q` after requesting each of `ks` in order.
pub open spec fn enqueue_all(q: Seq<PatchKey>, ks: Seq<PatchKey>) -> Seq<PatchKey>
    decreases ks.len(),
{
    if ks.len() == 0 {
        q
    } else {
        enqueued(enqueue_all(q, ks.drop_last()), ks.last())
    }
}

/// Chooses the next layer, with hysteresis: leaving a layer upward needs the
/// altitude to clear the threshold by a margin.
pub fn next_layer(current: PlanetContextLayer, readings: LayerReadings) -> (r: PlanetContextLayer)
    ensures
        r == layer_after(current, readings),
        !(current == PlanetContextLayer::Orbit && r == PlanetContextLayer::Surface),
        !(current == PlanetContextLayer::Surface && r == PlanetContextLayer::Orbit),
{
    match current {
        PlanetContextLayer::Orbit => {
            if readings.within_approach {
                PlanetContextLayer::Approach
            } else {
                PlanetContextLayer::Orbit
            }
        },
        PlanetContextLayer::Approach => {
            if readings.within_surface {
                PlanetContextLayer::Surface
            } else if readings.beyond_approach_exit {
                PlanetContextLayer::Orbit
            } else {
                PlanetContextLayer::Approach
            }
        },
        PlanetContextLayer::Surface => {
            if readings.beyond_surface_exit {
                PlanetContextLayer::Approach
            } else {
                PlanetContextLayer::Surface
            }
        },
    }
}

/// Inside a hysteresis band, past a threshold but not yet past its exit
/// margin, the two layers on either side of that threshold are both kept.
pub proof fn lemma_hysteresis_keeps_layer(current: PlanetContextLayer, r: LayerReadings)
    ensures
        (current == PlanetContextLayer::Orbit || current == PlanetContextLayer::Approach) && !r.within_approach
            && !r.within_surface && !r.beyond_approach_exit ==> layer_after(current, r) == current,
        (current == PlanetContextLayer::Approach || current == PlanetContextLayer::Surface) && !r.within_surface
            && !r.beyond_surface_exit && !r.beyond_approach_exit ==> layer_after(current, r) == current,
{
}

/// Fresh requests a layer may issue per frame.
pub fn max_new_requests(layer: PlanetContextLayer) -> (r: usize)
    ensures
        r == request_cap(layer),
{
    match layer {
        PlanetContextLayer::Surface => 40,
        PlanetContextLayer::Approach => 24,
        PlanetContextLayer::Orbit => 0,
    }
}

/// The discrete part of the planet context: the active layer, the wanted
/// patches and the deepest level requested.
pub struct PlanetContextState {
    layer: PlanetContextLayer,
    desired: PatchKeySet,
    max_requested_level: u8,
}

impl PlanetContextState {
    /// The active layer.
    pub closed spec fn layer_view(&self) -> PlanetContextLayer {
        self.layer
    }

    /// The deepest level requested by the last update.
    pub closed spec fn max_requested_level_view(&self) -> u8 {
        self.max_requested_level
    }

    /// The active layer.
    pub fn layer(&self) -> (r: PlanetContextLayer)
        ensures
            r == self.layer_view(),
    {
        self.layer
    }

    /// The deepest level requested by the last update.
    pub fn max_requested_level(&self) -> (r: u8)
        ensures
            r == self.max_requested_level_view(),
    {
        self.max_requested_level
    }

    /// The wanted patches.
    pub closed spec fn desired_view(&self) -> Seq<PatchKey> {
        self.desired@
    }

    /// Well-formedness: the wanted set never repeats a key.
    pub open spec fn wf(&self) -> bool {
        self.desired_view().no_duplicates()
    }

    /// Starts in orbit with nothing wanted.
    pub fn new() -> (r: PlanetContextState)
        ensures
            r.wf(),
            r.layer_view() == PlanetContextLayer::Orbit,
            r.desired_view() == Seq::<PatchKey>::empty(),
            r.max_requested_level_view() == 0,
    {
        PlanetContextState { layer: PlanetContextLayer::Orbit, desired: PatchKeySet::new(), max_requested_level: 0 }
    }

    /// Whether `key` is wanted.
    pub fn is_desired(&self, key: &PatchKey) -> (r: bool)
        ensures
            r == self.desired_view().contains(*key),
    {
        self.desired.contains(key)
    }

    /// The wanted patches, in the order they were admitted.
    pub fn desired(&self) -> (r: &PatchKeySet)
        ensures
            r@ == self.desired_view(),
            r.wf() == self.wf(),
    {
        &self.desired
    }
}

/// One frame of context bookkeeping.  A layer change forgets the wanted set
/// and the queue.  Outside the streaming layers nothing is wanted.  Otherwise
/// the queue keeps only still-wanted keys, fresh keys of `new_desired` are
/// requested up to the layer's per-frame cap (the rest wait for a later
/// frame), and the kept keys become the wanted set.
pub fn update_planet_context(
    context: &mut PlanetContextState,
    queue: &mut PatchRequestQueue,
    layer: PlanetContextLayer,
    new_desired: &PatchKeySet,
    deepest: u8,
)
    requires
        old(context).wf(),
        old(queue).wf(),
        new_desired.wf(),
    ensures
        final(context).wf(),
        final(queue).wf(),
        final(context).layer_view() == layer,
        !layer_streams(layer) ==> final(context).desired_view() == Seq::<PatchKey>::empty()
            && final(context).max_requested_level_view() == 0 && final(queue)@ == Seq::<PatchKey>::empty(),
        layer_streams(layer) ==> {
            let changed = layer != old(context).layer_view();
            let known = if changed { Seq::<PatchKey>::empty() } else { old(context).desired_view() };
            let q0 = if changed { Seq::<PatchKey>::empty() } else { old(queue)@ };
            let (kept, adm) = admission(new_desired@, known, request_cap(layer));
            &&& final(context).desired_view() == kept
            &&& final(queue)@ == enqueue_all(q0.filter(|k: PatchKey| new_desired@.contains(k)), adm)
            &&& final(context).max_requested_level_view() == deepest
        },
        (forall|k: PatchKey| #[trigger] old(queue)@.contains(k) ==> old(context).desired_view().contains(k))
            ==> (forall|k: PatchKey| #[trigger] final(queue)@.contains(k) ==> final(context).desired_view().contains(k)),
        layer_streams(layer) ==> final(context).desired_view().filter(
            |k: PatchKey| !(if layer != old(context).layer_view() {
                Seq::<PatchKey>::empty()
            } else {
                old(context).desired_view()
            }).contains(k),
        ).len() <= request_cap(layer),
{
    let ghost q_before = queue@;
    let ghost d_before = context.desired@;
    let ghost layer_before = context.layer;
    if layer != context.layer {
        context.layer = layer;
        context.desired.clear();
        context.max_requested_level = 0;
        queue.clear();
    }
    if !(layer == PlanetContextLayer::Approach || layer == PlanetContextLayer::Surface) {
        queue.clear();
        context.desired.clear();
        context.max_requested_level = 0;
        return;
    }
    queue.retain_keys(new_desired);
    let ghost known = context.desired@;
    let ghost q1 = queue@;
    let cap = max_new_requests(layer);
    let keys = new_desired.keys();
    let n = keys.len();
    let mut kept = PatchKeySet::new();
    let mut newly: usize = 0;
    for i in 0..n
        invariant
            n == keys@.len(),
            keys@ == new_desired@,
            keys@.no_duplicates(),
            cap == request_cap(layer),
            known == context.desired@,
            queue.wf(),
            kept.wf(),
            kept@ == admission(keys@.take(i as int), known, cap as nat).0,
            newly == admission(keys@.take(i as int), known, cap as nat).1.len(),
            newly <= cap,
            queue@ == enqueue_all(q1, admission(keys@.take(i as int), known, cap as nat).1),
            forall|x: PatchKey| #[trigger] kept@.contains(x) ==> keys@.take(i as int).contains(x),
    {
        let key = keys[i];
        let ghost pre = keys@.take(i as int);
        let ghost cur = keys@.take(i + 1);
        proof {
            assert(cur.drop_last() =~= pre);
            assert(cur.last() == key);
            lemma_admission_len(pre, known, cap as nat);
            assert(!kept@.contains(key)) by {
                if kept@.contains(key) {
                    assert(pre.contains(key));
                    let m = choose|m: int| 0 <= m < pre.len() && pre[m] == key;
                    assert(keys@[m] == keys@[i as int]);
                }
            }
        }
        let ghost kept_before = kept@;
        if context.desired.contains(&key) {
            kept.insert(key);
        } else if newly < cap {
            proof {
                let a0 = admission(pre, known, cap as nat).1;
                assert(a0.push(key).drop_last() =~= a0);
                assert(a0.push(key).last() == key);
            }
            queue.enqueue(key);
            kept.insert(key);
            newly += 1;
        }
        proof {
            assert forall|x: PatchKey| #[trigger] kept@.contains(x) implies cur.contains(x) by {
                if kept_before.contains(x) {
                    let m = choose|m: int| 0 <= m < pre.len() && pre[m] == x;
                    assert(cur[m] == x);
                } else {
                    assert(x == key);
                    assert(cur[i as int] == x);
                }
            }
        }
    }
    proof {
        assert(keys@.take(n as int) =~= keys@);
    }
    context.desired = kept;
    context.max_requested_level = deepest;
    proof {
        let changed = layer != layer_before;
        let known0 = if changed { Seq::<PatchKey>::empty() } else { d_before };
        let q0 = if changed { Seq::<PatchKey>::empty() } else { q_before };
        if forall|k: PatchKey| #[trigger] q_before.contains(k) ==> d_before.contains(k) {
            assert forall|k: PatchKey| #[trigger] q0.contains(k) implies known0.contains(k) by {}
        }
        assert(known0 == known);
        assert(queue@ == queue_after_frame(q0, new_desired@, known0, request_cap(layer)));
        assert(context.desired@ == admission(new_desired@, known0, request_cap(layer)).0);
        if forall|k: PatchKey| #[trigger] q0.contains(k) ==> known0.contains(k) {
            lemma_frame_admits_few_and_queues_wanted(new_desired@, known0, q0, request_cap(layer));
        }
        lemma_admission_new_keys(new_desired@, known0, request_cap(layer));
        lemma_admission_len(new_desired@, known0, request_cap(layer));
    }
}

proof fn lemma_admission_len(keys: Seq<PatchKey>, known: Seq<PatchKey>, cap: nat)
    ensures
        admission(keys, known, cap).1.len() <= cap,
        admission(keys, known, cap).0.len() <= keys.len(),
    decreases keys.len(),
{
    if keys.len() > 0 {
        lemma_admission_len(keys.drop_last(), known, cap);
    }
}

proof fn lemma_enqueue_all_contains(q: Seq<PatchKey>, ks: Seq<PatchKey>, x: PatchKey)
    ensures
        enqueue_all(q, ks).contains(x) ==> q.contains(x) || ks.contains(x),
    decreases ks.len(),
{
    if ks.len() > 0 {
        lemma_enqueue_all_contains(q, ks.drop_last(), x);
        let r = enqueue_all(q, ks.drop_last());
        if enqueue_all(q, ks).contains(x) && !r.contains(x) {
            assert(x == ks.last());
            assert(ks[ks.len() - 1] == x);
        }
        if ks.drop_last().contains(x) {
            let j = choose|j: int| 0 <= j < ks.drop_last().len() && ks.drop_last()[j] == x;
            assert(ks[j] == x);
        }
    }
}

proof fn lemma_admission_new_keys(keys: Seq<PatchKey>, known: Seq<PatchKey>, cap: nat)
    ensures
        admission(keys, known, cap).0.filter(|k: PatchKey| !known.contains(k)) == admission(keys, known, cap).1,
    decreases keys.len(),
{
    let pred = |k: PatchKey| !known.contains(k);
    if keys.len() == 0 {
        assert(Seq::<PatchKey>::empty().filter(pred) =~= Seq::<PatchKey>::empty()) by {
            reveal(Seq::filter);
        }
    } else {
        lemma_admission_new_keys(keys.drop_last(), known, cap);
        let (kept, adm) = admission(keys.drop_last(), known, cap);
        kept.lemma_filter_push(keys.last(), pred);
    }
}

/// The queue after one frame: the still-wanted keys of `queued`, then the
/// keys admitted from `keys`.
pub open spec fn queue_after_frame(queued: Seq<PatchKey>, keys: Seq<PatchKey>, known: Seq<PatchKey>, cap: nat) -> Seq<PatchKey> {
    enqueue_all(queued.filter(|q: PatchKey| keys.contains(q)), admission(keys, known, cap).1)
}

/// One frame keeps every queued key wanted, and admits few keys: if every
/// key queued before the frame was wanted (with `known` and `queued` the
/// wanted set and the queue carried into the frame, both empty after a layer
/// change), every key queued after it is wanted; and the wanted keys that
/// were not wanted before are exactly the admitted ones, at most `cap`.
pub proof fn lemma_frame_admits_few_and_queues_wanted(
    keys: Seq<PatchKey>,
    known: Seq<PatchKey>,
    queued: Seq<PatchKey>,
    cap: nat,
)
    requires
        forall|k: PatchKey| #[trigger] queued.contains(k) ==> known.contains(k),
    ensures
        forall|k: PatchKey|
            #[trigger] queue_after_frame(queued, keys, known, cap).contains(k) ==> admission(keys, known, cap).0.contains(k),
        admission(keys, known, cap).0.filter(|k: PatchKey| !known.contains(k)) == admission(keys, known, cap).1,
        admission(keys, known, cap).1.len() <= cap,
{
    let (kept, adm) = admission(keys, known, cap);
    let base = queued.filter(|q: PatchKey| keys.contains(q));
    lemma_admission_new_keys(keys, known, cap);
    lemma_admission_len(keys, known, cap);
    lemma_known_keys_kept(keys, known, cap);
    assert forall|k: PatchKey| #[trigger] queue_after_frame(queued, keys, known, cap).contains(k) implies kept.contains(k) by {
        lemma_enqueue_all_contains(base, adm, k);
        if base.contains(k) {
            let j = choose|j: int| 0 <= j < base.len() && base[j] == k;
            queued.lemma_filter_pred(|q: PatchKey| keys.contains(q), j);
            assert(keys.contains(base[j]));
            queued.lemma_filter_contains_rev(|q: PatchKey| keys.contains(q), k);
            assert(queued.contains(k));
            assert(keys.contains(k) && known.contains(k));
        }
    }
}

/// Admission takes the fresh keys in order, up to the cap.
pub proof fn lemma_admitted_are_first_fresh(keys: Seq<PatchKey>, known: Seq<PatchKey>, cap: nat)
    ensures
        admission(keys, known, cap).1 == fresh_keys(keys, known).take(
            if fresh_keys(keys, known).len() <= cap { fresh_keys(keys, known).len() as int } else { cap as int },
        ),
    decreases keys.len(),
{
    let pred = |k: PatchKey| !known.contains(k);
    reveal(Seq::filter);
    if keys.len() > 0 {
        let rest = keys.drop_last();
        lemma_admitted_are_first_fresh(rest, known, cap);
        let fr = fresh_keys(rest, known);
        assert(fresh_keys(keys, known) == (if pred(keys.last()) {
            fr.push(keys.last())
        } else {
            fr
        }));
        let adm = admission(rest, known, cap).1;
        if !known.contains(keys.last()) {
            if adm.len() < cap {
                assert(fr.len() < cap);
                assert(fr.push(keys.last()).take((fr.len() + 1) as int) =~= adm.push(keys.last()));
            } else {
                assert(fr.push(keys.last()).take(cap as int) =~= fr.take(cap as int));
            }
        }
    } else {
        assert(fresh_keys(keys, known) =~= Seq::<PatchKey>::empty());
    }
}

/// A key that was already wanted and is still wanted stays wanted; every
/// kept key comes from the new wanted set.
pub proof fn lemma_known_keys_kept(keys: Seq<PatchKey>, known: Seq<PatchKey>, cap: nat)
    ensures
        forall|k: PatchKey| #[trigger] keys.contains(k) && known.contains(k) ==> admission(keys, known, cap).0.contains(k),
        forall|k: PatchKey| #[trigger] admission(keys, known, cap).0.contains(k) ==> keys.contains(k),
        forall|k: PatchKey| #[trigger] admission(keys, known, cap).1.contains(k) ==> admission(keys, known, cap).0.contains(k)
            && !known.contains(k),
    decreases keys.len(),
{
    if keys.len() > 0 {
        let rest = keys.drop_last();
        lemma_known_keys_kept(rest, known, cap);
        let (kept, adm) = admission(rest, known, cap);
        let last = keys.last();
        assert forall|k: PatchKey| #[trigger] keys.contains(k) && known.contains(k) implies admission(
            keys,
            known,
            cap,
        ).0.contains(k) by {
            let m = choose|m: int| 0 <= m < keys.len() && keys[m] == k;
            if m < keys.len() - 1 {
                assert(rest[m] == k);
                assert(rest.contains(k));
                let j = choose|j: int| 0 <= j < kept.len() && kept[j] == k;
                assert(kept.push(last)[j] == k);
            } else {
                assert(kept.push(last)[kept.len() as int] == k);
            }
        }
        assert forall|k: PatchKey| #[trigger] admission(keys, known, cap).0.contains(k) implies keys.contains(k) by {
            if kept.contains(k) {
                let j = choose|j: int| 0 <= j < rest.len() && rest[j] == k;
                assert(keys[j] == k);
            } else {
                assert(keys[keys.len() - 1] == k);
            }
        }
        assert forall|k: PatchKey| #[trigger] admission(keys, known, cap).1.contains(k) implies admission(
            keys,
            known,
            cap,
        ).0.contains(k) && !known.contains(k) by {
            if adm.contains(k) {
                assert(kept.contains(k));
                let j = choose|j: int| 0 <= j < kept.len() && kept[j] == k;
                assert(kept.push(last)[j] == k);
            } else {
                assert(k == last);
                assert(kept.push(last)[kept.len() as int] == k);
            }
        }
    }
}

/// The layer moves with the altitude as follows.  From orbit, the camera
/// enters approach exactly when it is within the orbit-to-approach threshold,
/// whatever the surface reading says, and never jumps to the surface.  From
/// approach it goes down to the surface when within the surface threshold,
/// otherwise back up to orbit when past the approach exit margin, otherwise
/// it stays.  From the surface it goes back to approach exactly when past
/// the surface exit margin, and never straight to orbit.
pub proof fn lemma_layer_table(current: PlanetContextLayer, r: LayerReadings)
    ensures
        current == PlanetContextLayer::Orbit ==> (layer_after(current, r) == PlanetContextLayer::Approach
            <==> r.within_approach),
        current == PlanetContextLayer::Orbit && !r.within_approach ==> layer_after(current, r)
            == PlanetContextLayer::Orbit,
        current == PlanetContextLayer::Approach && r.within_surface ==> layer_after(current, r)
            == PlanetContextLayer::Surface,
        current == PlanetContextLayer::Approach && !r.within_surface ==> (layer_after(current, r)
            == PlanetContextLayer::Orbit <==> r.beyond_approach_exit),
        current == PlanetContextLayer::Approach && !r.within_surface && !r.beyond_approach_exit ==> layer_after(
            current,
            r,
        ) == PlanetContextLayer::Approach,
        current == PlanetContextLayer::Surface ==> (layer_after(current, r) == PlanetContextLayer::Approach
            <==> r.beyond_surface_exit),
        current == PlanetContextLayer::Surface && !r.beyond_surface_exit ==> layer_after(current, r)
            == PlanetContextLayer::Surface,
{
}

} // verus!
