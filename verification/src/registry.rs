//! Residency bookkeeping for generated patches.
//!
//! Every patch whose mesh has been generated has a slot.  A slot may carry the
//! id of the spawned entity that shows the patch, and counts how many of the
//! patch's children are spawned.  A parent whose four children are all shown
//! is hidden; it reappears as soon as one child goes away.
use vstd::prelude::*;

use crate::patch_key::{PatchKey, parent_of, child_at, lemma_child_parent_roundtrip, lemma_parent_child_cover, lemma_children_distinct, is_child_of};

verus! {

/// Residency state of one generated patch.
#[derive(Clone, Copy, Debug)]
pub struct PatchSlot {
    /// Id of the spawned entity showing the patch, if any.
    pub entity: Option<u64>,
    /// Number of spawned children.
    pub active_children: u8,
}

/// What has to be hidden after a spawn.
#[derive(Clone, Copy, Debug)]
pub struct SpawnVisibility {
    /// The new patch already has all four children shown.
    pub hide_spawned: bool,
    /// The parent's entity, when the parent now has all four children shown.
    pub hide_parent: Option<u64>,
}

/// Slots of all generated patches.
pub struct PatchRegistry {
    keys: Vec<PatchKey>,
    slots: Vec<PatchSlot>,
}

/// The slot index of `k` in `keys`.
pub open spec fn index_in(keys: Seq<PatchKey>, k: PatchKey) -> int {
    choose|i: int| 0 <= i < keys.len() && keys[i] == k
}

/// Whether `k` has a spawned entity in `m` (as 0 or 1).
pub open spec fn spawned_flag(m: Map<PatchKey, PatchSlot>, k: PatchKey) -> nat {
    if m.contains_key(k) && m[k].entity is Some {
        1
    } else {
        0
    }
}

/// Keys whose children can be addressed without 32-bit truncation.
pub open spec fn addressable_parent(p: PatchKey) -> bool {
    p.level < 255 && p.ix < 0x8000_0000u32 && p.iy < 0x8000_0000u32
}

/// Number of spawned children of `p` in `m`.
pub open spec fn spawned_children(m: Map<PatchKey, PatchSlot>, p: PatchKey) -> nat {
    if addressable_parent(p) {
        spawned_flag(m, child_at(p, 0)) + spawned_flag(m, child_at(p, 1)) + spawned_flag(m, child_at(p, 2))
            + spawned_flag(m, child_at(p, 3))
    } else {
        0
    }
}

/// The bookkeeping the registry relies on: child counters are exact, and a
/// spawned patch's parent has a slot.
pub open spec fn counts_consistent(m: Map<PatchKey, PatchSlot>) -> bool {
    &&& forall|p: PatchKey| #[trigger] m.contains_key(p) ==> m[p].active_children == spawned_children(m, p)
    &&& forall|k: PatchKey|
        #[trigger] m.contains_key(k) && m[k].entity is Some && k.level > 0 ==> m.contains_key(
            parent_of(k).unwrap(),
        )
}

/// `a + 1` saturated at 255.
pub open spec fn sat_inc(a: u8) -> u8 {
    if a == 255 {
        255
    } else {
        (a + 1) as u8
    }
}

/// `a - 1` saturated at 0.
pub open spec fn sat_dec(a: u8) -> u8 {
    if a == 0 {
        0
    } else {
        (a - 1) as u8
    }
}

/// The registry after spawning entity `e` for `key`.
pub open spec fn after_spawn(m: Map<PatchKey, PatchSlot>, key: PatchKey, e: u64) -> Map<PatchKey, PatchSlot> {
    let m1 = m.insert(key, PatchSlot { entity: Some(e), active_children: m[key].active_children });
    match parent_of(key) {
        Some(q) => if m1.contains_key(q) {
            m1.insert(q, PatchSlot { entity: m1[q].entity, active_children: sat_inc(m1[q].active_children) })
        } else {
            m1
        },
        None => m1,
    }
}

/// The registry after despawning the entity of `key`.
pub open spec fn after_despawn(m: Map<PatchKey, PatchSlot>, key: PatchKey) -> Map<PatchKey, PatchSlot> {
    let m1 = if m.contains_key(key) {
        m.insert(key, PatchSlot { entity: None, active_children: m[key].active_children })
    } else {
        m
    };
    match parent_of(key) {
        Some(q) => if m1.contains_key(q) {
            m1.insert(q, PatchSlot { entity: m1[q].entity, active_children: sat_dec(m1[q].active_children) })
        } else {
            m1
        },
        None => m1,
    }
}

/// The `(key, entity)` pairs of spawned slots without spawned children, in slot order.
pub open spec fn leaf_pairs(keys: Seq<PatchKey>, slots: Seq<PatchSlot>) -> Seq<(PatchKey, u64)>
    decreases keys.len(),
{
    if keys.len() == 0 || slots.len() != keys.len() {
        Seq::empty()
    } else {
        let rest = leaf_pairs(keys.drop_last(), slots.drop_last());
        let s = slots.last();
        if s.entity is Some && s.active_children == 0 {
            rest.push((keys.last(), s.entity->0))
        } else {
            rest
        }
    }
}

/// Number of spawned slots without spawned children.
pub open spec fn leaf_count(s: Seq<PatchSlot>) -> nat
    decreases s.len(),
{
    if s.len() == 0 {
        0
    } else {
        leaf_count(s.drop_last()) + if s.last().entity is Some && s.last().active_children == 0 {
            1nat
        } else {
            0nat
        }
    }
}

impl PatchRegistry {
    /// Keys with a slot, in creation order.
    pub closed spec fn keys_view(&self) -> Seq<PatchKey> {
        self.keys@
    }

    /// Slots in creation order (parallel to `keys_view`).
    pub closed spec fn slots_view(&self) -> Seq<PatchSlot> {
        self.slots@
    }

    /// The registry as a map from key to slot.
    pub open spec fn view_map(&self) -> Map<PatchKey, PatchSlot> {
        Map::new(
            |k: PatchKey| self.keys_view().contains(k),
            |k: PatchKey| self.slots_view()[index_in(self.keys_view(), k)],
        )
    }

    /// Well-formedness: one slot per key.
    pub open spec fn wf(&self) -> bool {
        &&& self.keys_view().no_duplicates()
        &&& self.keys_view().len() == self.slots_view().len()
    }

    /// An empty registry.
    pub fn new() -> (r: PatchRegistry)
        ensures
            r.wf(),
            r.view_map() == Map::<PatchKey, PatchSlot>::empty(),
            counts_consistent(r.view_map()),
    {
        let r = PatchRegistry { keys: Vec::new(), slots: Vec::new() };
        assert(r.view_map() =~= Map::<PatchKey, PatchSlot>::empty());
        r
    }

    /// Number of slots.
    pub fn len(&self) -> (r: usize)
        requires
            self.wf(),
        ensures
            r == self.view_map().dom().len(),
    {
        proof {
            self.lemma_dom_len();
        }
        self.keys.len()
    }

    /// Slot index of `key`, if it has a slot.
    fn find(&self, key: &PatchKey) -> (r: Option<usize>)
        requires
            self.wf(),
        ensures
            r is None ==> !self.keys_view().contains(*key),
            r matches Some(i) ==> i < self.keys_view().len() && self.keys_view()[i as int] == *key && index_in(
                self.keys_view(),
                *key,
            ) == i,
    {
        let n = self.keys.len();
        for i in 0..n
            invariant
                self.wf(),
                n == self.keys@.len(),
                forall|j: int| 0 <= j < i ==> self.keys@[j] != *key,
        {
            if self.keys[i] == *key {
                proof {
                    lemma_index_in_unique(self.keys@, i as int);
                }
                return Some(i);
            }
        }
        None
    }

    /// Whether `key` has a slot.
    pub fn contains(&self, key: &PatchKey) -> (r: bool)
        requires
            self.wf(),
        ensures
            r == self.view_map().contains_key(*key),
    {
        self.find(key).is_some()
    }

    /// The slot of `key`, if any.
    pub fn slot(&self, key: &PatchKey) -> (r: Option<PatchSlot>)
        requires
            self.wf(),
        ensures
            r is None <==> !self.view_map().contains_key(*key),
            r matches Some(s) ==> s == self.view_map()[*key],
    {
        match self.find(key) {
            Some(i) => Some(self.slots[i]),
            None => None,
        }
    }

    /// Gives a freshly generated patch a slot (not spawned, no children
    /// counted); a patch that already has one keeps it unchanged.  Returns
    /// whether a slot was created.
    pub fn insert_generated(&mut self, key: PatchKey) -> (r: bool)
        requires
            old(self).wf(),
        ensures
            final(self).wf(),
            r == !old(self).view_map().contains_key(key),
            r ==> final(self).view_map() == old(self).view_map().insert(
                key,
                PatchSlot { entity: None, active_children: 0 },
            ),
            !r ==> final(self).view_map() == old(self).view_map(),
            counts_consistent(old(self).view_map()) ==> counts_consistent(final(self).view_map()),
    {
        match self.find(&key) {
            Some(_) => false,
            None => {
                let ghost old_map = self.view_map();
                let ghost old_keys = self.keys@;
                self.keys.push(key);
                self.slots.push(PatchSlot { entity: None, active_children: 0 });
                proof {
                    crate::key_set::lemma_push_keeps_unique(old_keys, key);
                    let new_map = old_map.insert(key, PatchSlot { entity: None, active_children: 0 });
                    assert forall|k: PatchKey| self.view_map().contains_key(k) <==> new_map.contains_key(k) by {
                        if old_keys.contains(k) {
                            let j = choose|j: int| 0 <= j < old_keys.len() && old_keys[j] == k;
                            assert(self.keys@[j] == k);
                        }
                        if self.keys@.contains(k) && k != key {
                            let j = choose|j: int| 0 <= j < self.keys@.len() && self.keys@[j] == k;
                            assert(old_keys[j] == k);
                        }
                        assert(self.keys@[old_keys.len() as int] == key);
                    }
                    assert forall|k: PatchKey| #[trigger] self.view_map().contains_key(k) implies self.view_map()[k]
                        == new_map[k] by {
                        if k == key {
                            lemma_index_in_unique(self.keys@, old_keys.len() as int);
                        } else {
                            let j = index_in(old_keys, k);
                            lemma_index_in_unique(old_keys, j);
                            assert(self.keys@[j] == k);
                            lemma_index_in_unique(self.keys@, j);
                        }
                    }
                    assert(self.view_map() =~= new_map);
                    if counts_consistent(old_map) {
                        lemma_insert_fresh_consistent(old_map, key);
                    }
                }
                true
            },
        }
    }

    /// Records that `entity` now shows `key`, which has a slot without an
    /// entity.  The parent's child counter goes up; reports which entities
    /// must be hidden because all four of their children are shown.
    pub fn spawn(&mut self, key: PatchKey, entity: u64) -> (r: SpawnVisibility)
        requires
            old(self).wf(),
            old(self).view_map().contains_key(key),
            old(self).view_map()[key].entity is None,
        ensures
            final(self).wf(),
            final(self).view_map() == after_spawn(old(self).view_map(), key, entity),
            r.hide_spawned == (old(self).view_map()[key].active_children >= 4),
            r.hide_parent == (match parent_of(key) {
                Some(q) => if final(self).view_map().contains_key(q) && final(self).view_map()[q].active_children
                    >= 4 {
                    final(self).view_map()[q].entity
                } else {
                    None
                },
                None => None,
            }),
            counts_consistent(old(self).view_map()) && (key.level > 0 ==> old(self).view_map().contains_key(
                parent_of(key).unwrap(),
            )) ==> counts_consistent(final(self).view_map()),
    {
        let ghost m0 = self.view_map();
        let i = self.find(&key).unwrap();
        let old_slot = self.slots[i];
        self.slots.set(i, PatchSlot { entity: Some(entity), active_children: old_slot.active_children });
        let ghost m1 = self.view_map();
        proof {
            self.lemma_set_slot(m0, i as int, key);
        }
        let mut hide_parent: Option<u64> = None;
        match key.parent() {
            Some(q) => {
                match self.find(&q) {
                    Some(j) => {
                        let ps = self.slots[j];
                        let bumped = if ps.active_children == 255 { 255 } else { ps.active_children + 1 };
                        self.slots.set(j, PatchSlot { entity: ps.entity, active_children: bumped });
                        proof {
                            self.lemma_set_slot(m1, j as int, q);
                        }
                        if bumped >= 4 {
                            hide_parent = ps.entity;
                        }
                    },
                    None => {},
                }
            },
            None => {},
        }
        proof {
            if counts_consistent(m0) && (key.level > 0 ==> m0.contains_key(parent_of(key).unwrap())) {
                lemma_spawn_consistent(m0, key, entity);
            }
        }
        SpawnVisibility { hide_spawned: old_slot.active_children >= 4, hide_parent }
    }

    /// Forgets the entity of `key` (if it has a slot) and lowers the parent's
    /// child counter.  Returns the parent's entity when the parent has to be
    /// shown again because fewer than four children remain.
    pub fn despawn(&mut self, key: PatchKey) -> (r: Option<u64>)
        requires
            old(self).wf(),
        ensures
            final(self).wf(),
            final(self).view_map() == after_despawn(old(self).view_map(), key),
            r == (match parent_of(key) {
                Some(q) => if final(self).view_map().contains_key(q) && final(self).view_map()[q].active_children
                    < 4 {
                    final(self).view_map()[q].entity
                } else {
                    None
                },
                None => None,
            }),
            counts_consistent(old(self).view_map()) && old(self).view_map().contains_key(key) && old(
                self,
            ).view_map()[key].entity is Some ==> counts_consistent(final(self).view_map()),
    {
        let ghost m0 = self.view_map();
        match self.find(&key) {
            Some(i) => {
                let s = self.slots[i];
                self.slots.set(i, PatchSlot { entity: None, active_children: s.active_children });
                proof {
                    self.lemma_set_slot(m0, i as int, key);
                }
            },
            None => {
                assert(self.view_map() =~= m0);
            },
        }
        let ghost m1 = self.view_map();
        let mut show_parent: Option<u64> = None;
        match key.parent() {
            Some(q) => {
                match self.find(&q) {
                    Some(j) => {
                        let ps = self.slots[j];
                        let lowered = if ps.active_children == 0 { 0 } else { ps.active_children - 1 };
                        self.slots.set(j, PatchSlot { entity: ps.entity, active_children: lowered });
                        proof {
                            self.lemma_set_slot(m1, j as int, q);
                        }
                        if lowered < 4 {
                            show_parent = ps.entity;
                        }
                    },
                    None => {},
                }
            },
            None => {},
        }
        proof {
            if counts_consistent(m0) && m0.contains_key(key) && m0[key].entity is Some {
                lemma_despawn_consistent(m0, key);
            }
        }
        show_parent
    }

    /// Number of spawned patches none of whose children is spawned.
    pub fn active_count(&self) -> (r: usize)
        requires
            self.wf(),
        ensures
            r == leaf_count(self.slots_view()),
    {
        let n = self.slots.len();
        let mut count: usize = 0;
        for i in 0..n
            invariant
                n == self.slots@.len(),
                count == leaf_count(self.slots@.take(i as int)),
                count <= i,
        {
            let s = self.slots[i];
            proof {
                assert(self.slots@.take(i + 1).drop_last() =~= self.slots@.take(i as int));
            }
            if s.entity.is_some() && s.active_children == 0 {
                count += 1;
            }
        }
        proof {
            assert(self.slots@.take(n as int) =~= self.slots@);
        }
        count
    }

    /// Spawned patches without spawned children, with their entities, in
    /// creation order: the patches that may be evicted.
    pub fn eviction_candidates(&self) -> (r: Vec<(PatchKey, u64)>)
        requires
            self.wf(),
        ensures
            r@ == leaf_pairs(self.keys_view(), self.slots_view()),
            forall|j: int| 0 <= j < r@.len() ==> {
                let (k, e) = #[trigger] r@[j];
                &&& self.view_map().contains_key(k)
                &&& self.view_map()[k].entity == Some(e)
                &&& self.view_map()[k].active_children == 0
            },
            forall|k: PatchKey|
                #[trigger] self.view_map().contains_key(k) && self.view_map()[k].entity is Some
                    && self.view_map()[k].active_children == 0 ==> exists|j: int|
                    0 <= j < r@.len() && (#[trigger] r@[j]).0 == k,
    {
        let n = self.keys.len();
        let mut out: Vec<(PatchKey, u64)> = Vec::new();
        for i in 0..n
            invariant
                self.wf(),
                n == self.keys@.len(),
                out@ == leaf_pairs(self.keys@.take(i as int), self.slots@.take(i as int)),
                forall|j: int| 0 <= j < out@.len() ==> {
                    let (k, e) = #[trigger] out@[j];
                    &&& self.view_map().contains_key(k)
                    &&& self.view_map()[k].entity == Some(e)
                    &&& self.view_map()[k].active_children == 0
                },
                forall|m: int|
                    0 <= m < i && (#[trigger] self.slots@[m]).entity is Some && self.slots@[m].active_children
                        == 0 ==> exists|j: int| 0 <= j < out@.len() && (#[trigger] out@[j]).0 == self.keys@[m],
        {
            let s = self.slots[i];
            let k = self.keys[i];
            proof {
                lemma_index_in_unique(self.keys@, i as int);
                assert(self.keys@.contains(k));
                assert(self.keys@.take(i + 1).drop_last() =~= self.keys@.take(i as int));
                assert(self.slots@.take(i + 1).drop_last() =~= self.slots@.take(i as int));
            }
            let ghost out_before = out@;
            match s.entity {
                Some(e) => {
                    if s.active_children == 0 {
                        out.push((k, e));
                        assert(out@[out@.len() - 1].0 == k);
                    }
                },
                None => {},
            }
            proof {
                assert forall|m: int|
                    0 <= m < i + 1 && (#[trigger] self.slots@[m]).entity is Some && self.slots@[m].active_children
                        == 0 implies exists|j: int| 0 <= j < out@.len() && (#[trigger] out@[j]).0 == self.keys@[m] by {
                    if m < i {
                        let j = choose|j: int| 0 <= j < out_before.len() && (#[trigger] out_before[j]).0 == self.keys@[m];
                        assert(out@[j] == out_before[j]);
                    } else {
                        assert(out@[out@.len() - 1].0 == self.keys@[m]);
                    }
                }
            }
        }
        proof {
            assert forall|k: PatchKey|
                #[trigger] self.view_map().contains_key(k) && self.view_map()[k].entity is Some
                    && self.view_map()[k].active_children == 0 implies exists|j: int|
                    0 <= j < out@.len() && (#[trigger] out@[j]).0 == k by {
                let m = index_in(self.keys@, k);
                assert(self.slots@[m].entity is Some);
            }
            assert(self.keys@.take(n as int) =~= self.keys@);
            assert(self.slots@.take(n as int) =~= self.slots@);
        }
        out
    }
}

impl PatchRegistry {
    proof fn lemma_dom_len(&self)
        requires
            self.wf(),
        ensures
            self.view_map().dom().len() == self.keys_view().len(),
    {
        self.keys_view().unique_seq_to_set();
        assert(self.view_map().dom() =~= self.keys_view().to_set());
    }

    /// Replacing slot `i` (holding `key`) changes the map at `key` only.
    proof fn lemma_set_slot(&self, before: Map<PatchKey, PatchSlot>, i: int, key: PatchKey)
        requires
            self.wf(),
            0 <= i < self.keys_view().len(),
            self.keys_view()[i] == key,
            forall|k: PatchKey| before.contains_key(k) <==> self.keys_view().contains(k),
            forall|j: int|
                0 <= j < self.keys_view().len() && j != i ==> before[#[trigger] self.keys_view()[j]]
                    == self.slots_view()[j],
        ensures
            self.view_map() == before.insert(key, self.slots_view()[i]),
    {
        lemma_index_in_unique(self.keys_view(), i);
        assert forall|k: PatchKey| #[trigger] self.view_map().contains_key(k) implies self.view_map()[k]
            == before.insert(key, self.slots_view()[i])[k] by {
            let j = index_in(self.keys_view(), k);
            lemma_index_in_unique(self.keys_view(), j);
        }
        assert(self.view_map() =~= before.insert(key, self.slots_view()[i]));
    }
}

/// In a duplicate-free sequence the chosen index of `keys[i]` is `i`.
pub proof fn lemma_index_in_unique(keys: Seq<PatchKey>, i: int)
    requires
        keys.no_duplicates(),
        0 <= i < keys.len(),
    ensures
        index_in(keys, keys[i]) == i,
{
    let j = index_in(keys, keys[i]);
    assert(0 <= j < keys.len() && keys[j] == keys[i]);
}

/// Children of an addressable parent name it as their parent, and a key names
/// exactly one addressable parent.
proof fn lemma_child_iff_parent(p: PatchKey, k: PatchKey)
    requires
        addressable_parent(p),
    ensures
        is_child_of(k, p) <==> (k.level > 0 && parent_of(k) == Some(p)),
{
    if is_child_of(k, p) {
        let i = choose|i: int| 0 <= i < 4 && #[trigger] child_at(p, i) == k;
        lemma_child_parent_roundtrip(p, i);
    }
    if k.level > 0 && parent_of(k) == Some(p) {
        lemma_parent_child_cover(k);
    }
}

/// A parent computed by halving coordinates is always addressable (below level 255).
proof fn lemma_parent_addressable(k: PatchKey)
    requires
        k.level > 0,
    ensures
        addressable_parent(parent_of(k).unwrap()),
{
    let x = k.ix;
    let y = k.iy;
    assert(x >> 1u32 < 0x8000_0000u32) by (bit_vector);
    assert(y >> 1u32 < 0x8000_0000u32) by (bit_vector);
}

/// Changing entries of `m` that are not children of `p` leaves `p`'s count alone.
proof fn lemma_count_frame(m: Map<PatchKey, PatchSlot>, m2: Map<PatchKey, PatchSlot>, p: PatchKey)
    requires
        forall|i: int| 0 <= i < 4 ==> spawned_flag(m, #[trigger] child_at(p, i)) == spawned_flag(m2, child_at(p, i)),
    ensures
        spawned_children(m, p) == spawned_children(m2, p),
{
    assert(spawned_flag(m, child_at(p, 0)) == spawned_flag(m2, child_at(p, 0)));
    assert(spawned_flag(m, child_at(p, 1)) == spawned_flag(m2, child_at(p, 1)));
    assert(spawned_flag(m, child_at(p, 2)) == spawned_flag(m2, child_at(p, 2)));
    assert(spawned_flag(m, child_at(p, 3)) == spawned_flag(m2, child_at(p, 3)));
}

/// A fresh unspawned slot has no spawned children, so counts stay exact.
proof fn lemma_insert_fresh_consistent(m: Map<PatchKey, PatchSlot>, key: PatchKey)
    requires
        counts_consistent(m),
        !m.contains_key(key),
    ensures
        counts_consistent(m.insert(key, PatchSlot { entity: None, active_children: 0 })),
{
    let m2 = m.insert(key, PatchSlot { entity: None, active_children: 0 });
    assert forall|p: PatchKey| #[trigger] m2.contains_key(p) implies m2[p].active_children == spawned_children(m2, p) by {
        assert forall|i: int| 0 <= i < 4 implies spawned_flag(m, #[trigger] child_at(p, i)) == spawned_flag(
            m2,
            child_at(p, i),
        ) by {
            if child_at(p, i) == key {
            }
        }
        lemma_count_frame(m, m2, p);
        if p == key && addressable_parent(p) {
            assert forall|i: int| 0 <= i < 4 implies spawned_flag(m, #[trigger] child_at(p, i)) == 0 by {
                let c = child_at(p, i);
                if m.contains_key(c) && m[c].entity is Some {
                    lemma_child_parent_roundtrip(p, i);
                    lemma_children_distinct(p);
                    assert(c.level > 0);
                    assert(m.contains_key(parent_of(c).unwrap()));
                }
            }
            assert(spawned_flag(m, child_at(p, 0)) == 0);
            assert(spawned_flag(m, child_at(p, 1)) == 0);
            assert(spawned_flag(m, child_at(p, 2)) == 0);
            assert(spawned_flag(m, child_at(p, 3)) == 0);
        }
    }
}

/// Spawning a patch whose parent has a slot keeps the counts exact.
proof fn lemma_spawn_consistent(m: Map<PatchKey, PatchSlot>, key: PatchKey, e: u64)
    requires
        counts_consistent(m),
        m.contains_key(key),
        m[key].entity is None,
        key.level > 0 ==> m.contains_key(parent_of(key).unwrap()),
    ensures
        counts_consistent(after_spawn(m, key, e)),
{
    let m1 = m.insert(key, PatchSlot { entity: Some(e), active_children: m[key].active_children });
    let m2 = after_spawn(m, key, e);
    assert forall|p: PatchKey| #[trigger] m2.contains_key(p) implies m2[p].active_children == spawned_children(m2, p) by {
        if key.level > 0 && parent_of(key) == Some(p) {
            lemma_parent_addressable(key);
            lemma_child_iff_parent(p, key);
            let ci = choose|i: int| 0 <= i < 4 && #[trigger] child_at(p, i) == key;
            lemma_children_distinct(p);
            assert forall|i: int| 0 <= i < 4 && i != ci implies spawned_flag(m, #[trigger] child_at(p, i))
                == spawned_flag(m2, child_at(p, i)) by {
            }
            assert(spawned_flag(m, key) == 0);
            assert(spawned_flag(m2, key) == 1);
            assert(spawned_children(m, p) <= 3) by {
                if ci == 0 {
                } else if ci == 1 {
                } else if ci == 2 {
                } else {
                }
            }
            if ci == 0 {
            } else if ci == 1 {
            } else if ci == 2 {
            } else {
            }
        } else if addressable_parent(p) {
            assert forall|i: int| 0 <= i < 4 implies spawned_flag(m, #[trigger] child_at(p, i)) == spawned_flag(
                m2,
                child_at(p, i),
            ) by {
                if child_at(p, i) == key {
                    lemma_child_iff_parent(p, key);
                    assert(is_child_of(key, p));
                }
            }
            lemma_count_frame(m, m2, p);
        }
    }
    assert forall|k: PatchKey|
        #[trigger] m2.contains_key(k) && m2[k].entity is Some && k.level > 0 implies m2.contains_key(
        parent_of(k).unwrap(),
    ) by {
    }
}

/// Despawning a spawned patch keeps the counts exact.
proof fn lemma_despawn_consistent(m: Map<PatchKey, PatchSlot>, key: PatchKey)
    requires
        counts_consistent(m),
        m.contains_key(key),
        m[key].entity is Some,
    ensures
        counts_consistent(after_despawn(m, key)),
{
    let m2 = after_despawn(m, key);
    assert forall|p: PatchKey| #[trigger] m2.contains_key(p) implies m2[p].active_children == spawned_children(m2, p) by {
        if key.level > 0 && parent_of(key) == Some(p) {
            lemma_parent_addressable(key);
            lemma_child_iff_parent(p, key);
            let ci = choose|i: int| 0 <= i < 4 && #[trigger] child_at(p, i) == key;
            lemma_children_distinct(p);
            assert forall|i: int| 0 <= i < 4 && i != ci implies spawned_flag(m, #[trigger] child_at(p, i))
                == spawned_flag(m2, child_at(p, i)) by {
            }
            assert(spawned_flag(m, key) == 1);
            assert(spawned_flag(m2, key) == 0);
            if ci == 0 {
            } else if ci == 1 {
            } else if ci == 2 {
            } else {
            }
        } else if addressable_parent(p) {
            assert forall|i: int| 0 <= i < 4 implies spawned_flag(m, #[trigger] child_at(p, i)) == spawned_flag(
                m2,
                child_at(p, i),
            ) by {
                if child_at(p, i) == key {
                    lemma_child_iff_parent(p, key);
                    assert(is_child_of(key, p));
                }
            }
            lemma_count_frame(m, m2, p);
        }
    }
}

/// Despawning right after a spawn restores the registry, as long as the
/// parent's counter was not already saturated.
pub proof fn lemma_spawn_despawn_roundtrip(m: Map<PatchKey, PatchSlot>, key: PatchKey, e: u64)
    requires
        m.contains_key(key),
        m[key].entity is None,
        key.level > 0 && m.contains_key(parent_of(key).unwrap()) ==> m[parent_of(key).unwrap()].active_children
            < 255,
    ensures
        after_despawn(after_spawn(m, key, e), key) == m,
{
    let m2 = after_despawn(after_spawn(m, key, e), key);
    assert(m2 =~= m);
}

/// With exact counts, a spawned patch that is not at the deepest level
/// counts at most four spawned children, so the counter never saturates.
pub proof fn lemma_counts_bounded(m: Map<PatchKey, PatchSlot>, p: PatchKey)
    requires
        counts_consistent(m),
        m.contains_key(p),
    ensures
        m[p].active_children <= 4,
{
}

} // verus!
