//! Breadth-first selection of the patches the camera wants.
//!
//! The walk starts from the six face roots and proceeds one quadtree level at
//! a time.  For every key on the current level the caller supplies a verdict
//! (computed from camera geometry): culled keys are dropped, visible keys are
//! wanted, and visible keys that ask for more detail contribute their four
//! children to the next level, as long as the level cap allows it.
use vstd::prelude::*;

use crate::context::PlanetContextLayer;
use crate::key_set::PatchKeySet;
use crate::patch_key::{PatchKey, ROOT_FACES, child_at, children_of, in_face_bounds, is_child_of, parent_of};
use crate::request_queue::enqueued;

verus! {

/// What the camera test decided for one patch.
#[derive(Clone, Copy, Debug, PartialEq, Eq, Structural)]
pub enum PatchVerdict {
    /// Outside the frustum, behind the horizon or outside the view cone.
    Culled,
    /// Wanted at its current size.
    Visible,
    /// Wanted, and its screen-space error asks for the children as well.
    Refine,
}

/// State of a level-by-level walk.
pub struct DesiredPatchWalk {
    max_level: u8,
    level: u16,
    frontier: PatchKeySet,
    desired: PatchKeySet,
    deepest: u8,
}

/// The keys of `f` whose verdict is not `Culled`, in order.
pub open spec fn visible_keys(f: Seq<PatchKey>, v: Seq<PatchVerdict>) -> Seq<PatchKey>
    decreases f.len(),
{
    if f.len() == 0 || v.len() != f.len() {
        Seq::empty()
    } else {
        let rest = visible_keys(f.drop_last(), v.drop_last());
        if v.last() == PatchVerdict::Culled {
            rest
        } else {
            rest.push(f.last())
        }
    }
}

/// Whether a key with verdict `v` contributes its children under level cap `max_level`.
pub open spec fn expands(k: PatchKey, v: PatchVerdict, max_level: u8) -> bool {
    v == PatchVerdict::Refine && k.level < max_level
}

/// `s` followed by the children of `k` that it does not hold yet.
pub open spec fn add_children(s: Seq<PatchKey>, k: PatchKey) -> Seq<PatchKey> {
    enqueued(enqueued(enqueued(enqueued(s, child_at(k, 0)), child_at(k, 1)), child_at(k, 2)), child_at(k, 3))
}

/// The next level of the walk: children of the expanding keys, in order, each once.
pub open spec fn next_frontier(f: Seq<PatchKey>, v: Seq<PatchVerdict>, max_level: u8) -> Seq<PatchKey>
    decreases f.len(),
{
    if f.len() == 0 || v.len() != f.len() {
        Seq::empty()
    } else {
        let rest = next_frontier(f.drop_last(), v.drop_last(), max_level);
        if expands(f.last(), v.last(), max_level) {
            add_children(rest, f.last())
        } else {
            rest
        }
    }
}

/// The six face roots, in face order.
pub open spec fn face_roots() -> Seq<PatchKey> {
    Seq::new(ROOT_FACES as nat, |f: int| PatchKey { face: f as u8, level: 0, ix: 0, iy: 0 })
}

/// Whether a layer asks for surface patches at all.
pub open spec fn streams_patches(layer: PlanetContextLayer) -> bool {
    layer == PlanetContextLayer::Approach || layer == PlanetContextLayer::Surface
}

impl DesiredPatchWalk {
    /// Keys wanted so far, in visiting order.
    pub closed spec fn desired_view(&self) -> Seq<PatchKey> {
        self.desired@
    }

    /// Keys of the level about to be judged.
    pub closed spec fn frontier_view(&self) -> Seq<PatchKey> {
        self.frontier@
    }

    /// Deepest level among the wanted keys (0 if none).
    pub closed spec fn deepest_view(&self) -> u8 {
        self.deepest
    }

    /// Level cap of the walk.
    pub closed spec fn max_level_view(&self) -> u8 {
        self.max_level
    }

    /// Level of the keys in the frontier.
    pub closed spec fn level_view(&self) -> nat {
        self.level as nat
    }

    /// Invariant of the walk.
    pub closed spec fn wf(&self) -> bool {
        &&& self.frontier.wf()
        &&& self.desired.wf()
        &&& self.level <= 256
        &&& self.frontier@.len() > 0 ==> self.level <= self.max_level
        &&& forall|i: int| 0 <= i < self.frontier@.len() ==> (#[trigger] self.frontier@[i]).level == self.level
        &&& forall|i: int| 0 <= i < self.frontier@.len() ==> (#[trigger] self.frontier@[i]).face < ROOT_FACES
        &&& forall|i: int| 0 <= i < self.desired@.len() ==> (#[trigger] self.desired@[i]).face < ROOT_FACES
        &&& forall|i: int| 0 <= i < self.frontier@.len() && (#[trigger] self.frontier@[i]).level <= 31 ==> in_face_bounds(self.frontier@[i])
        &&& forall|i: int| 0 <= i < self.desired@.len() && (#[trigger] self.desired@[i]).level <= 31 ==> in_face_bounds(self.desired@[i])
        &&& forall|i: int| 0 <= i < self.desired@.len() ==> (#[trigger] self.desired@[i]).level < self.level
        &&& forall|i: int| 0 <= i < self.desired@.len() ==> (#[trigger] self.desired@[i]).level <= self.deepest
        &&& (self.deepest > 0 ==> exists|i: int|
            0 <= i < self.desired@.len() && (#[trigger] self.desired@[i]).level == self.deepest)
        &&& forall|k: PatchKey| #[trigger] self.desired@.contains(k) ==> k.level <= self.max_level
        &&& forall|k: PatchKey|
            #[trigger] self.desired@.contains(k) && k.level > 0 ==> exists|p: PatchKey|
                #[trigger] self.desired@.contains(p) && is_child_of(k, p)
        &&& forall|k: PatchKey|
            #[trigger] self.frontier@.contains(k) && k.level > 0 ==> exists|p: PatchKey|
                #[trigger] self.desired@.contains(p) && is_child_of(k, p)
    }

    /// Starts a walk for `layer` with level cap `max_level`.  Layers that do
    /// not stream patches start (and end) with nothing wanted.
    pub fn start(layer: PlanetContextLayer, max_level: u8) -> (r: DesiredPatchWalk)
        ensures
            r.wf(),
            r.desired_view() == Seq::<PatchKey>::empty(),
            r.deepest_view() == 0,
            r.max_level_view() == max_level,
            r.level_view() == 0,
            streams_patches(layer) ==> r.frontier_view() == face_roots(),
            !streams_patches(layer) ==> r.frontier_view() == Seq::<PatchKey>::empty(),
    {
        let mut frontier = PatchKeySet::new();
        if layer == PlanetContextLayer::Approach || layer == PlanetContextLayer::Surface {
            let mut face: u8 = 0;
            while face < ROOT_FACES
                invariant
                    face <= ROOT_FACES,
                    frontier.wf(),
                    frontier@ == face_roots().take(face as int),
                decreases ROOT_FACES - face,
            {
                let key = PatchKey { face, level: 0, ix: 0, iy: 0 };
                assert(!frontier@.contains(key)) by {
                    if frontier@.contains(key) {
                        let j = choose|j: int| 0 <= j < frontier@.len() && frontier@[j] == key;
                        assert(face_roots()[j].face == j as u8);
                    }
                }
                frontier.insert(key);
                assert(frontier@ =~= face_roots().take(face + 1));
                face += 1;
            }
            assert(face_roots().take(ROOT_FACES as int) =~= face_roots());
        }
        DesiredPatchWalk { max_level, level: 0, frontier, desired: PatchKeySet::new(), deepest: 0 }
    }

    /// Whether no level is left to judge.
    pub fn is_done(&self) -> (r: bool)
        ensures
            r == (self.frontier_view().len() == 0),
    {
        self.frontier.len() == 0
    }

    /// The keys awaiting a verdict, in order.
    pub fn frontier(&self) -> (r: &Vec<PatchKey>)
        ensures
            r@ == self.frontier_view(),
    {
        self.frontier.keys()
    }

    /// Applies one verdict per frontier key (`verdicts[i]` judges slot `i`):
    /// visible keys become wanted, and the children of expanding keys form the
    /// next frontier.
    pub fn advance(&mut self, verdicts: &Vec<PatchVerdict>)
        requires
            old(self).wf(),
            verdicts@.len() == old(self).frontier_view().len(),
        ensures
            final(self).wf(),
            final(self).max_level_view() == old(self).max_level_view(),
            final(self).desired_view() == old(self).desired_view() + visible_keys(
                old(self).frontier_view(),
                verdicts@,
            ),
            final(self).frontier_view() == next_frontier(
                old(self).frontier_view(),
                verdicts@,
                old(self).max_level_view(),
            ),
            final(self).deepest_view() == if visible_keys(old(self).frontier_view(), verdicts@).len() > 0 {
                old(self).level_view() as u8
            } else {
                old(self).deepest_view()
            },
            old(self).frontier_view().len() > 0 ==> final(self).level_view() == old(self).level_view() + 1,
            old(self).frontier_view().len() == 0 ==> final(self).level_view() == old(self).level_view(),
    {
        let ghost f = self.frontier@;
        let ghost d0 = self.desired@;
        let ghost ml = self.max_level;
        let ghost lv = self.level;
        let ghost deep0 = self.deepest;
        let n = self.frontier.len();
        if n == 0 {
            assert(visible_keys(f, verdicts@) =~= Seq::<PatchKey>::empty());
            assert(next_frontier(f, verdicts@, ml) =~= Seq::<PatchKey>::empty());
            assert(self.desired@ =~= d0 + Seq::<PatchKey>::empty());
            return;
        }
        let mut next = PatchKeySet::new();
        let mut i: usize = 0;
        while i < n
            invariant
                n == f.len(),
                verdicts@.len() == n,
                0 <= i <= n,
                f == self.frontier@,
                f.no_duplicates(),
                ml == self.max_level,
                lv == self.level,
                lv <= ml,
                self.desired.wf(),
                next.wf(),
                forall|j: int| 0 <= j < f.len() ==> (#[trigger] f[j]).level == lv,
                forall|j: int| 0 <= j < f.len() ==> (#[trigger] f[j]).face < ROOT_FACES,
                forall|j: int| 0 <= j < d0.len() ==> (#[trigger] d0[j]).level < lv,
                forall|j: int| 0 <= j < self.desired@.len() ==> (#[trigger] self.desired@[j]).face < ROOT_FACES,
                forall|j: int| 0 <= j < next@.len() ==> (#[trigger] next@[j]).face < ROOT_FACES,
                forall|j: int| 0 <= j < f.len() && (#[trigger] f[j]).level <= 31 ==> in_face_bounds(f[j]),
                forall|j: int| 0 <= j < self.desired@.len() && (#[trigger] self.desired@[j]).level <= 31 ==> in_face_bounds(self.desired@[j]),
                forall|j: int| 0 <= j < next@.len() && (#[trigger] next@[j]).level <= 31 ==> in_face_bounds(next@[j]),
                self.desired@ == d0 + visible_keys(f.take(i as int), verdicts@.take(i as int)),
                next@ == next_frontier(f.take(i as int), verdicts@.take(i as int), ml),
                next@.len() > 0 ==> lv < ml,
                forall|j: int| 0 <= j < next@.len() ==> (#[trigger] next@[j]).level == lv + 1,
                forall|k: PatchKey| #[trigger] next@.contains(k) ==> exists|p: PatchKey|
                    #[trigger] self.desired@.contains(p) && is_child_of(k, p),
                visible_keys(f.take(i as int), verdicts@.take(i as int)).len() > 0 ==> self.deepest == lv,
                visible_keys(f.take(i as int), verdicts@.take(i as int)).len() == 0 ==> self.deepest == deep0,
            decreases n - i,
        {
            let key = self.frontier.keys()[i];
            let verdict = verdicts[i];
            let ghost ft = f.take(i + 1);
            let ghost vt = verdicts@.take(i + 1);
            let ghost fp = f.take(i as int);
            let ghost vp = verdicts@.take(i as int);
            proof {
                assert(ft.drop_last() =~= fp);
                assert(vt.drop_last() =~= vp);
                assert(ft.last() == key);
                assert(vt.last() == verdict);
                assert(visible_keys(ft, vt) == (if vt.last() == PatchVerdict::Culled {
                    visible_keys(fp, vp)
                } else {
                    visible_keys(fp, vp).push(key)
                }));
                assert(next_frontier(ft, vt, ml) == (if expands(key, verdict, ml) {
                    add_children(next_frontier(fp, vp, ml), key)
                } else {
                    next_frontier(fp, vp, ml)
                }));
            }
            let ghost before_desired = self.desired@;
            let ghost before_next = next@;
            if verdict != PatchVerdict::Culled {
                proof {
                    lemma_visible_keys_within(fp, vp);
                    assert(!self.desired@.contains(key)) by {
                        if self.desired@.contains(key) {
                            let j = choose|j: int| 0 <= j < self.desired@.len() && self.desired@[j] == key;
                            if j < d0.len() {
                                assert(d0[j].level < lv);
                            } else {
                                let vk = visible_keys(fp, vp);
                                assert(self.desired@[j] == vk[j - d0.len()]);
                                assert(vk.contains(key));
                                assert(fp.contains(key));
                                let m = choose|m: int| 0 <= m < fp.len() && fp[m] == key;
                                assert(f[m] == f[i as int]);
                            }
                        }
                    }
                }
                self.desired.insert(key);
                self.deepest = key.level;
                proof {
                    assert(self.desired@ == before_desired.push(key));
                    assert(self.desired@[before_desired.len() as int] == key);
                    assert(self.desired@.contains(key));
                    assert forall|k: PatchKey| #[trigger] next@.contains(k) implies exists|p: PatchKey|
                        #[trigger] self.desired@.contains(p) && is_child_of(k, p) by {
                        let p = choose|p: PatchKey| #[trigger] before_desired.contains(p) && is_child_of(k, p);
                        let j = choose|j: int| 0 <= j < before_desired.len() && before_desired[j] == p;
                        assert(self.desired@[j] == p);
                        assert(self.desired@.contains(p));
                    }
                }
                if verdict == PatchVerdict::Refine && key.level < self.max_level {
                    let kids = key.children();
                    let mut c: usize = 0;
                    while c < 4
                        invariant
                            0 <= c <= 4,
                            next.wf(),
                            kids@ == children_of(key),
                            key.level == lv,
                            lv < ml,
                            self.desired@.contains(key),
                            next@ == add_children_prefix(before_next, key, c as int),
                            forall|j: int| 0 <= j < next@.len() ==> (#[trigger] next@[j]).level == lv + 1,
                            key.face < ROOT_FACES,
                            forall|j: int| 0 <= j < next@.len() ==> (#[trigger] next@[j]).face < ROOT_FACES,
                            key.level <= 31 ==> in_face_bounds(key),
                            forall|j: int| 0 <= j < next@.len() && (#[trigger] next@[j]).level <= 31 ==> in_face_bounds(next@[j]),
                            forall|k: PatchKey| #[trigger] next@.contains(k) ==> exists|p: PatchKey|
                                #[trigger] self.desired@.contains(p) && is_child_of(k, p),
                        decreases 4 - c,
                    {
                        let child = kids[c];
                        proof {
                            assert(child == child_at(key, c as int));
                            crate::patch_key::lemma_children_distinct(key);
                            assert(child.level == lv + 1);
                            assert(is_child_of(child, key));
                            if child.level <= 31 {
                                crate::patch_key::lemma_bounded_child_parent(key, c as int);
                            }
                        }
                        let ghost mid = next@;
                        next.insert(child);
                        proof {
                            assert(next@ == enqueued(mid, child));
                            assert forall|j: int| 0 <= j < next@.len() implies (#[trigger] next@[j]).level == lv + 1
                                && next@[j].face < ROOT_FACES && (next@[j].level <= 31 ==> in_face_bounds(next@[j])) by {
                                if j < mid.len() {
                                    assert(next@[j] == mid[j]);
                                }
                            }
                            assert forall|k: PatchKey| #[trigger] next@.contains(k) implies exists|p: PatchKey|
                                #[trigger] self.desired@.contains(p) && is_child_of(k, p) by {
                                if k == child {
                                    assert(self.desired@.contains(key) && is_child_of(k, key));
                                } else {
                                    let j = choose|j: int| 0 <= j < next@.len() && next@[j] == k;
                                    assert(mid[j] == k);
                                    assert(mid.contains(k));
                                }
                            }
                        }
                        c += 1;
                    }
                    assert(add_children_prefix(before_next, key, 4) == add_children(before_next, key)) by {
                        reveal_with_fuel(add_children_prefix, 5);
                    }
                }
            }
            proof {
                assert(self.desired@ =~= d0 + visible_keys(ft, vt));
            }
            i += 1;
        }
        proof {
            assert(f.take(n as int) =~= f);
            assert(verdicts@.take(n as int) =~= verdicts@);
        }
        self.frontier = next;
        self.level = self.level + 1;
        proof {
            lemma_visible_keys_within(f, verdicts@);
            let vk = visible_keys(f, verdicts@);
            assert forall|j: int| 0 <= j < self.desired@.len() implies (#[trigger] self.desired@[j]).level < self.level by {
                if j >= d0.len() {
                    assert(self.desired@[j] == vk[j - d0.len()]);
                    assert(vk.contains(vk[j - d0.len()]));
                    let m = choose|m: int| 0 <= m < f.len() && f[m] == vk[j - d0.len()];
                }
            }
            assert forall|j: int| 0 <= j < self.desired@.len() implies (#[trigger] self.desired@[j]).level <= self.deepest by {
                if j >= d0.len() {
                    assert(self.desired@[j] == vk[j - d0.len()]);
                    assert(vk.contains(vk[j - d0.len()]));
                    let m = choose|m: int| 0 <= m < f.len() && f[m] == vk[j - d0.len()];
                } else {
                    assert(self.desired@[j] == d0[j]);
                    assert(old(self).desired@[j].level <= old(self).deepest);
                    if vk.len() > 0 {
                        assert(d0[j].level < lv);
                    }
                }
            }
            if self.deepest > 0 {
                if vk.len() > 0 {
                    assert(self.desired@[d0.len() as int] == vk[0]);
                    assert(vk.contains(vk[0]));
                    let m = choose|m: int| 0 <= m < f.len() && f[m] == vk[0];
                    assert(self.desired@[d0.len() as int].level == self.deepest);
                } else {
                    let w = choose|w: int| 0 <= w < d0.len() && (#[trigger] d0[w]).level == deep0;
                    assert(self.desired@[w] == d0[w]);
                }
            }
            assert forall|k: PatchKey| #[trigger] self.desired@.contains(k) implies k.level <= self.max_level by {
                let j = choose|j: int| 0 <= j < self.desired@.len() && self.desired@[j] == k;
                if j >= d0.len() {
                    assert(self.desired@[j] == vk[j - d0.len()]);
                    assert(vk.contains(vk[j - d0.len()]));
                    let m = choose|m: int| 0 <= m < f.len() && f[m] == vk[j - d0.len()];
                } else {
                    assert(d0[j] == k);
                    assert(old(self).desired@.contains(k));
                }
            }
            assert forall|k: PatchKey| #[trigger] self.desired@.contains(k) && k.level > 0 implies exists|p: PatchKey|
                #[trigger] self.desired@.contains(p) && is_child_of(k, p) by {
                let j = choose|j: int| 0 <= j < self.desired@.len() && self.desired@[j] == k;
                let p = if j >= d0.len() {
                    assert(self.desired@[j] == vk[j - d0.len()]);
                    assert(vk.contains(k));
                    assert(f.contains(k));
                    assert(old(self).frontier@.contains(k));
                    choose|p: PatchKey| #[trigger] d0.contains(p) && is_child_of(k, p)
                } else {
                    assert(d0[j] == k);
                    assert(old(self).desired@.contains(k));
                    choose|p: PatchKey| #[trigger] d0.contains(p) && is_child_of(k, p)
                };
                let w = choose|w: int| 0 <= w < d0.len() && d0[w] == p;
                assert(self.desired@[w] == p);
                assert(self.desired@.contains(p));
            }
        }
    }

    /// The wanted keys and the deepest wanted level.
    pub fn finish(self) -> (r: (PatchKeySet, u8))
        requires
            self.wf(),
        ensures
            r.0.wf(),
            r.0@ == self.desired_view(),
            r.1 == self.deepest_view(),
    {
        (self.desired, self.deepest)
    }
}

impl DesiredPatchWalk {
    /// Every wanted key lies on one of the six faces, respects the level cap,
    /// never repeats, and is either a face root or a child of another wanted
    /// key; the deepest level reported is that of a wanted key.
    pub proof fn lemma_desired_shape(&self)
        requires
            self.wf(),
        ensures
            self.desired_view().no_duplicates(),
            forall|i: int| 0 <= i < self.desired_view().len() ==> (#[trigger] self.desired_view()[i]).face < ROOT_FACES,
            self.deepest_view() > 0 ==> exists|i: int|
                0 <= i < self.desired_view().len() && (#[trigger] self.desired_view()[i]).level == self.deepest_view(),
            forall|k: PatchKey| #[trigger] self.desired_view().contains(k) ==> k.level <= self.max_level_view(),
            forall|k: PatchKey|
                #[trigger] self.desired_view().contains(k) && k.level > 0 ==> exists|p: PatchKey|
                    #[trigger] self.desired_view().contains(p) && is_child_of(k, p),
            forall|i: int| 0 <= i < self.desired_view().len() ==> (#[trigger] self.desired_view()[i]).level <= self.deepest_view(),
    {
    }

    /// With a level cap of at most 31, the wanted set is a quadtree closed
    /// under parents: every wanted key lies inside its face, and the parent
    /// of every wanted key below the roots is wanted too.
    pub proof fn lemma_desired_parent_closed(&self)
        requires
            self.wf(),
            self.max_level_view() <= 31,
        ensures
            forall|k: PatchKey| #[trigger] self.desired_view().contains(k) ==> in_face_bounds(k),
            forall|k: PatchKey|
                #[trigger] self.desired_view().contains(k) && k.level > 0 ==> parent_of(k) is Some
                    && self.desired_view().contains(parent_of(k).unwrap()),
    {
        assert forall|k: PatchKey| #[trigger] self.desired_view().contains(k) implies in_face_bounds(k) by {
            let j = choose|j: int| 0 <= j < self.desired@.len() && self.desired@[j] == k;
        }
        assert forall|k: PatchKey| #[trigger] self.desired_view().contains(k) && k.level > 0 implies parent_of(k) is Some
            && self.desired_view().contains(parent_of(k).unwrap()) by {
            let p = choose|p: PatchKey| #[trigger] self.desired@.contains(p) && is_child_of(k, p);
            let i = choose|i: int| 0 <= i < 4 && #[trigger] child_at(p, i) == k;
            let j = choose|j: int| 0 <= j < self.desired@.len() && self.desired@[j] == p;
            assert(p.level <= 31);
            assert(in_face_bounds(p));
            assert(p.level < 31);
            crate::patch_key::lemma_bounded_child_parent(p, i);
        }
    }

    /// The walk ends after at most `max_level + 1` levels.
    pub proof fn lemma_walk_bounded(&self)
        requires
            self.wf(),
            self.level_view() > self.max_level_view(),
        ensures
            self.frontier_view().len() == 0,
    {
    }
}

/// `s` after adding the first `c` children of `k` that it does not hold yet.
pub open spec fn add_children_prefix(s: Seq<PatchKey>, k: PatchKey, c: int) -> Seq<PatchKey>
    decreases c,
{
    if c <= 0 {
        s
    } else {
        enqueued(add_children_prefix(s, k, c - 1), child_at(k, c - 1))
    }
}

/// Every visible key comes from the frontier, at most once each.
proof fn lemma_visible_keys_within(f: Seq<PatchKey>, v: Seq<PatchVerdict>)
    ensures
        forall|x: PatchKey| #[trigger] visible_keys(f, v).contains(x) ==> f.contains(x),
        visible_keys(f, v).len() <= f.len(),
        f.no_duplicates() ==> visible_keys(f, v).no_duplicates(),
    decreases f.len(),
{
    if f.len() == 0 || v.len() != f.len() {
    } else {
        let fr = f.drop_last();
        let vr = v.drop_last();
        lemma_visible_keys_within(fr, vr);
        let rest = visible_keys(fr, vr);
        assert forall|x: PatchKey| #[trigger] visible_keys(f, v).contains(x) implies f.contains(x) by {
            if rest.contains(x) {
                let j = choose|j: int| 0 <= j < fr.len() && fr[j] == x;
                assert(f[j] == x);
            } else {
                assert(x == f.last());
                assert(f[f.len() - 1] == x);
            }
        }
        if f.no_duplicates() && v.last() != PatchVerdict::Culled {
            assert(fr.no_duplicates());
            if rest.contains(f.last()) {
                let j = choose|j: int| 0 <= j < fr.len() && fr[j] == f.last();
                assert(f[j] == f[f.len() - 1]);
            }
            crate::key_set::lemma_push_keeps_unique(rest, f.last());
        }
    }
}

} // verus!
