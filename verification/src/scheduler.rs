//! Per-frame decisions of the patch streamer: which popped request to drop,
//! defer, spawn or hand to a loader; what a finished load means for the
//! bookkeeping; which spawned patches to prune.
//!
//! The caller performs the outside work (loading, spawning entities, camera
//! geometry) and feeds the outcome back through these functions.
use vstd::prelude::*;

use crate::asset_state::PatchAssetState;
use crate::context::{PlanetContextLayer, PlanetContextState};
use crate::patch_key::{PatchKey, parent_of};
use crate::registry::{PatchRegistry, SpawnVisibility, counts_consistent, leaf_count, after_despawn};
use crate::request_queue::{PatchRequestQueue, enqueued};

verus! {

/// Most load tasks that may be in flight at once.
pub const MAX_CONCURRENT_TASKS: usize = 28;

/// How a patch mesh is produced.
#[derive(Clone, Copy, Debug, PartialEq, Eq, Structural)]
pub enum PatchLoadMethod {
    Disk,
    Procedural,
}

/// First-stage verdict on a popped request.
#[derive(Clone, Copy, Debug, PartialEq, Eq, Structural)]
pub enum Triage {
    /// The key is no longer wanted: forget the request.
    Drop,
    /// Deferred, and nothing more is processed this frame.
    DeferAndStop,
    /// Deferred; go on with the next request.
    Defer,
    /// Go on with eviction and the second stage.
    Proceed,
}

/// Second-stage verdict on a popped request.
#[derive(Clone, Copy, Debug, PartialEq, Eq, Structural)]
pub enum PatchAction {
    /// Deferred to a later frame.
    Defer,
    /// Spawn an entity for the generated mesh, then call `commit_spawn`.
    Spawn,
    /// Already shown: nothing to do, the request is consumed.
    Skip,
    /// Start reading the authored bundle (the request is deferred until it finishes).
    StartDiskLoad,
    /// Start procedural generation (the request is deferred until it finishes).
    StartProceduralLoad,
}

/// Counters of one frame of queue processing.
pub struct QueueFrame {
    spawn_budget: u32,
    max_active: usize,
    spawned: u32,
    active: usize,
    deferred: Vec<PatchKey>,
}

impl QueueFrame {
    pub closed spec fn spawn_budget_view(&self) -> u32 {
        self.spawn_budget
    }

    pub closed spec fn max_active_view(&self) -> usize {
        self.max_active
    }

    /// Patches spawned so far this frame.
    pub closed spec fn spawned_view(&self) -> u32 {
        self.spawned
    }

    /// Running count of spawned leaf patches.
    pub closed spec fn active_view(&self) -> usize {
        self.active
    }

    /// Requests to put back into the queue at the end of the frame.
    pub closed spec fn deferred_view(&self) -> Seq<PatchKey> {
        self.deferred@
    }

    /// A frame never spawns more than its budget.
    pub open spec fn wf(&self) -> bool {
        self.spawned_view() <= self.spawn_budget_view()
    }

    /// Starts a frame with the given budgets; the active count starts at the
    /// registry's number of spawned leaves.
    pub fn begin(registry: &PatchRegistry, spawn_budget: u32, max_active: usize) -> (r: QueueFrame)
        requires
            registry.wf(),
        ensures
            r.wf(),
            r.spawn_budget_view() == spawn_budget,
            r.max_active_view() == max_active,
            r.spawned_view() == 0,
            r.active_view() == leaf_count(registry.slots_view()),
            r.deferred_view() == Seq::<PatchKey>::empty(),
    {
        QueueFrame {
            spawn_budget,
            max_active,
            spawned: 0,
            active: registry.active_count(),
            deferred: Vec::new(),
        }
    }

    /// Patches spawned so far.
    pub fn spawned(&self) -> (r: u32)
        ensures
            r == self.spawned_view(),
    {
        self.spawned
    }

    /// Patches the frame may spawn.
    pub fn spawn_budget(&self) -> (r: u32)
        ensures
            r == self.spawn_budget_view(),
    {
        self.spawn_budget
    }

    /// Spawned leaves the frame may keep.
    pub fn max_active(&self) -> (r: usize)
        ensures
            r == self.max_active_view(),
    {
        self.max_active
    }

    /// Running count of spawned leaf patches.
    pub fn active(&self) -> (r: usize)
        ensures
            r == self.active_view(),
    {
        self.active
    }

    fn defer(&mut self, key: PatchKey)
        ensures
            final(self).deferred_view() == old(self).deferred_view().push(key),
            final(self).spawn_budget_view() == old(self).spawn_budget_view(),
            final(self).max_active_view() == old(self).max_active_view(),
            final(self).spawned_view() == old(self).spawned_view(),
            final(self).active_view() == old(self).active_view(),
    {
        self.deferred.push(key);
    }

    /// First stage: unwanted keys are dropped; with no spawn budget, or once
    /// the budget is used up, the key is deferred and the frame stops; a key
    /// whose parent has no generated mesh yet is deferred.
    pub fn triage(&mut self, key: PatchKey, context: &PlanetContextState, registry: &PatchRegistry) -> (r: Triage)
        requires
            registry.wf(),
        ensures
            final(self).spawn_budget_view() == old(self).spawn_budget_view(),
            final(self).max_active_view() == old(self).max_active_view(),
            final(self).spawned_view() == old(self).spawned_view(),
            final(self).active_view() == old(self).active_view(),
            r == (if !context.desired_view().contains(key) {
                Triage::Drop
            } else if old(self).spawn_budget_view() == 0 {
                Triage::DeferAndStop
            } else if key.level > 0 && !registry.view_map().contains_key(parent_of(key).unwrap()) {
                Triage::Defer
            } else if old(self).spawned_view() >= old(self).spawn_budget_view() {
                Triage::DeferAndStop
            } else {
                Triage::Proceed
            }),
            r == Triage::Drop || r == Triage::Proceed ==> final(self).deferred_view() == old(self).deferred_view(),
            r == Triage::Defer || r == Triage::DeferAndStop ==> final(self).deferred_view() == old(
                self,
            ).deferred_view().push(key),
    {
        if !context.is_desired(&key) {
            return Triage::Drop;
        }
        if self.spawn_budget == 0 {
            self.defer(key);
            return Triage::DeferAndStop;
        }
        match key.parent() {
            Some(parent) => {
                if !registry.contains(&parent) {
                    self.defer(key);
                    return Triage::Defer;
                }
            },
            None => {},
        }
        if self.spawned >= self.spawn_budget {
            self.defer(key);
            return Triage::DeferAndStop;
        }
        Triage::Proceed
    }

    /// Whether the active budget is exhausted, so an eviction is needed first.
    pub fn needs_eviction(&self) -> (r: bool)
        ensures
            r == (self.active_view() >= self.max_active_view()),
    {
        self.active >= self.max_active
    }

    /// Evicts the spawned patch `key` chosen by the caller: a still-wanted key
    /// is requested again, its entity is forgotten and the active count drops.
    /// Returns the parent's entity when the parent has to be shown again.
    pub fn evict(
        &mut self,
        key: PatchKey,
        context: &PlanetContextState,
        registry: &mut PatchRegistry,
        queue: &mut PatchRequestQueue,
        metrics: &mut PatchCacheMetrics,
    ) -> (r: Option<u64>)
        requires
            old(registry).wf(),
            old(queue).wf(),
        ensures
            final(registry).wf(),
            final(queue).wf(),
            final(registry).view_map() == after_despawn(old(registry).view_map(), key),
            final(queue)@ == if context.desired_view().contains(key) {
                enqueued(old(queue)@, key)
            } else {
                old(queue)@
            },
            final(self).active_view() == if old(self).active_view() == 0 {
                0
            } else {
                (old(self).active_view() - 1) as usize
            },
            final(self).spawn_budget_view() == old(self).spawn_budget_view(),
            final(self).max_active_view() == old(self).max_active_view(),
            final(self).spawned_view() == old(self).spawned_view(),
            final(self).deferred_view() == old(self).deferred_view(),
            final(metrics).evictions_view() == sat_add_u64(old(metrics).evictions_view(), 1),
            r == revealed_parent(final(registry).view_map(), key),
            counts_consistent(old(registry).view_map()) && old(registry).view_map().contains_key(key) && old(
                registry,
            ).view_map()[key].entity is Some ==> counts_consistent(final(registry).view_map()),
    {
        if context.is_desired(&key) {
            queue.enqueue(key);
        }
        let show = registry.despawn(key);
        metrics.evictions = metrics.evictions.saturating_add(1);
        self.active = if self.active == 0 { 0 } else { self.active - 1 };
        show
    }

    /// Second stage, after evictions: spawn a generated but hidden patch when
    /// budgets allow, start a load for a patch with neither mesh nor task
    /// (from disk unless its bundle is known to be missing, and only while
    /// fewer than `MAX_CONCURRENT_TASKS` tasks run), otherwise defer.
    pub fn settle(
        &mut self,
        key: PatchKey,
        registry: &PatchRegistry,
        assets: &PatchAssetState,
        has_task: bool,
        tasks_in_flight: usize,
    ) -> (r: PatchAction)
        requires
            registry.wf(),
        ensures
            final(self).spawn_budget_view() == old(self).spawn_budget_view(),
            final(self).max_active_view() == old(self).max_active_view(),
            final(self).spawned_view() == old(self).spawned_view(),
            final(self).active_view() == old(self).active_view(),
            r == settle_action(
                old(self).active_view() as int,
                old(self).max_active_view() as int,
                old(self).spawned_view() as int,
                old(self).spawn_budget_view() as int,
                registry.view_map(),
                assets.missing_view(),
                key,
                has_task,
                tasks_in_flight as int,
            ),
            r == PatchAction::Spawn || r == PatchAction::Skip ==> final(self).deferred_view() == old(
                self,
            ).deferred_view(),
            !(r == PatchAction::Spawn || r == PatchAction::Skip) ==> final(self).deferred_view() == old(
                self,
            ).deferred_view().push(key),
    {
        if self.active >= self.max_active {
            self.defer(key);
            return PatchAction::Defer;
        }
        match registry.slot(&key) {
            Some(slot) => {
                if slot.entity.is_some() {
                    PatchAction::Skip
                } else if self.spawned < self.spawn_budget {
                    PatchAction::Spawn
                } else {
                    self.defer(key);
                    PatchAction::Defer
                }
            },
            None => {
                if has_task {
                    self.defer(key);
                    return PatchAction::Defer;
                }
                if tasks_in_flight >= MAX_CONCURRENT_TASKS {
                    self.defer(key);
                    return PatchAction::Defer;
                }
                self.defer(key);
                if assets.is_marked_missing(&key) {
                    PatchAction::StartProceduralLoad
                } else {
                    PatchAction::StartDiskLoad
                }
            },
        }
    }

    /// Records that `entity` now shows `key` (after `settle` said `Spawn`).
    pub fn commit_spawn(&mut self, key: PatchKey, entity: u64, registry: &mut PatchRegistry) -> (r: SpawnVisibility)
        requires
            old(self).wf(),
            old(registry).wf(),
            old(registry).view_map().contains_key(key),
            old(registry).view_map()[key].entity is None,
            old(self).spawned_view() < old(self).spawn_budget_view(),
            old(self).active_view() < old(self).max_active_view(),
        ensures
            final(self).wf(),
            final(registry).wf(),
            final(registry).view_map() == crate::registry::after_spawn(old(registry).view_map(), key, entity),
            final(self).spawned_view() == old(self).spawned_view() + 1,
            final(self).active_view() == old(self).active_view() + 1,
            final(self).spawn_budget_view() == old(self).spawn_budget_view(),
            final(self).max_active_view() == old(self).max_active_view(),
            final(self).deferred_view() == old(self).deferred_view(),
            r.hide_spawned == (old(registry).view_map()[key].active_children >= 4),
            r.hide_parent == covered_parent(final(registry).view_map(), key),
            counts_consistent(old(registry).view_map()) && (key.level > 0 ==> old(registry).view_map().contains_key(
                parent_of(key).unwrap(),
            )) ==> counts_consistent(final(registry).view_map()),
    {
        let vis = registry.spawn(key, entity);
        self.spawned = self.spawned + 1;
        self.active = self.active + 1;
        vis
    }

    /// Ends the frame, handing back the deferred requests in order.
    pub fn finish(self) -> (r: Vec<PatchKey>)
        ensures
            r@ == self.deferred_view(),
    {
        self.deferred
    }
}

/// The second-stage verdict on `key`, given the frame's counters, the
/// registry `m`, the keys whose bundles are known to be missing, and the
/// running loads.
pub open spec fn settle_action(
    active: int,
    max_active: int,
    spawned: int,
    spawn_budget: int,
    m: Map<PatchKey, crate::registry::PatchSlot>,
    missing: Seq<PatchKey>,
    key: PatchKey,
    has_task: bool,
    tasks_in_flight: int,
) -> PatchAction {
    if active >= max_active {
        PatchAction::Defer
    } else if m.contains_key(key) {
        if m[key].entity is Some {
            PatchAction::Skip
        } else if spawned < spawn_budget {
            PatchAction::Spawn
        } else {
            PatchAction::Defer
        }
    } else if has_task || tasks_in_flight >= MAX_CONCURRENT_TASKS {
        PatchAction::Defer
    } else if missing.contains(key) {
        PatchAction::StartProceduralLoad
    } else {
        PatchAction::StartDiskLoad
    }
}

/// A patch is only ever spawned within both budgets of the frame: fewer
/// leaves are shown than the active budget allows and fewer patches have been
/// spawned this frame than its spawn budget; and a load only starts below the
/// active budget and the cap on concurrent tasks.
pub proof fn lemma_spawn_within_budgets(
    active: int,
    max_active: int,
    spawned: int,
    spawn_budget: int,
    m: Map<PatchKey, crate::registry::PatchSlot>,
    missing: Seq<PatchKey>,
    key: PatchKey,
    has_task: bool,
    tasks_in_flight: int,
)
    ensures
        settle_action(active, max_active, spawned, spawn_budget, m, missing, key, has_task, tasks_in_flight)
            == PatchAction::Spawn ==> active < max_active && spawned < spawn_budget && m.contains_key(key),
        ({
            let a = settle_action(active, max_active, spawned, spawn_budget, m, missing, key, has_task, tasks_in_flight);
            a == PatchAction::StartDiskLoad || a == PatchAction::StartProceduralLoad
        }) ==> active < max_active && !has_task && tasks_in_flight < MAX_CONCURRENT_TASKS && !m.contains_key(key),
{
}

/// Once a disk read of a patch has failed, its bundle is never read from
/// disk again: the key is marked missing, and a marked key only ever gets a
/// procedural build.
pub proof fn lemma_missing_bundle_goes_procedural(
    missing_before: Seq<PatchKey>,
    missing_after: Seq<PatchKey>,
    key: PatchKey,
    active: int,
    max_active: int,
    spawned: int,
    spawn_budget: int,
    m: Map<PatchKey, crate::registry::PatchSlot>,
    has_task: bool,
    tasks_in_flight: int,
)
    requires
        missing_after.to_set() == missing_before.to_set().insert(key),
    ensures
        settle_action(active, max_active, spawned, spawn_budget, m, missing_after, key, has_task, tasks_in_flight)
            != PatchAction::StartDiskLoad,
        !m.contains_key(key) && !has_task && tasks_in_flight < MAX_CONCURRENT_TASKS && active < max_active
            ==> settle_action(active, max_active, spawned, spawn_budget, m, missing_after, key, has_task, tasks_in_flight)
            == PatchAction::StartProceduralLoad,
{
    assert(missing_after.to_set().contains(key));
    assert(missing_after.contains(key));
}

/// `a + b` saturated at `u64::MAX`.
pub open spec fn sat_add_u64(a: u64, b: u64) -> u64 {
    if a + b > u64::MAX {
        u64::MAX
    } else {
        (a + b) as u64
    }
}

/// Streaming counters and recent budget history.
pub struct PatchCacheMetrics {
    disk_hits: u64,
    disk_misses: u64,
    procedural_builds: u64,
    procedural_failures: u64,
    evictions: u64,
    active_patches: usize,
    max_active_budget: usize,
    spawn_budget_last: u32,
    active_history: Vec<usize>,
    spawn_history: Vec<u32>,
    history_capacity: usize,
}

/// Default number of frames kept in the budget histories.
pub const DEFAULT_HISTORY_CAPACITY: usize = 240;

/// `h` with `x` appended, dropping the oldest entry when over `cap`.
pub open spec fn pushed_history<T>(h: Seq<T>, x: T, cap: nat) -> Seq<T> {
    if h.len() + 1 > cap {
        h.push(x).drop_first()
    } else {
        h.push(x)
    }
}

impl PatchCacheMetrics {
    pub closed spec fn disk_hits_view(&self) -> u64 {
        self.disk_hits
    }

    pub closed spec fn disk_misses_view(&self) -> u64 {
        self.disk_misses
    }

    pub closed spec fn procedural_builds_view(&self) -> u64 {
        self.procedural_builds
    }

    pub closed spec fn procedural_failures_view(&self) -> u64 {
        self.procedural_failures
    }

    pub closed spec fn evictions_view(&self) -> u64 {
        self.evictions
    }

    pub closed spec fn active_patches_view(&self) -> usize {
        self.active_patches
    }

    pub closed spec fn max_active_budget_view(&self) -> usize {
        self.max_active_budget
    }

    pub closed spec fn spawn_budget_last_view(&self) -> u32 {
        self.spawn_budget_last
    }

    pub closed spec fn active_history_view(&self) -> Seq<usize> {
        self.active_history@
    }

    pub closed spec fn spawn_history_view(&self) -> Seq<u32> {
        self.spawn_history@
    }

    pub closed spec fn history_capacity_view(&self) -> usize {
        self.history_capacity
    }

    /// Histories never hold more frames than the capacity.
    pub open spec fn wf(&self) -> bool {
        &&& self.active_history_view().len() <= self.history_capacity_view()
        &&& self.spawn_history_view().len() <= self.history_capacity_view()
    }

    /// All counters zero, empty histories of capacity 240.
    pub fn new() -> (r: PatchCacheMetrics)
        ensures
            r.wf(),
            r.disk_hits_view() == 0,
            r.disk_misses_view() == 0,
            r.procedural_builds_view() == 0,
            r.procedural_failures_view() == 0,
            r.evictions_view() == 0,
            r.active_patches_view() == 0,
            r.max_active_budget_view() == 0,
            r.spawn_budget_last_view() == 0,
            r.active_history_view() == Seq::<usize>::empty(),
            r.spawn_history_view() == Seq::<u32>::empty(),
            r.history_capacity_view() == DEFAULT_HISTORY_CAPACITY,
    {
        PatchCacheMetrics {
            disk_hits: 0,
            disk_misses: 0,
            procedural_builds: 0,
            procedural_failures: 0,
            evictions: 0,
            active_patches: 0,
            max_active_budget: 0,
            spawn_budget_last: 0,
            active_history: Vec::new(),
            spawn_history: Vec::new(),
            history_capacity: DEFAULT_HISTORY_CAPACITY,
        }
    }

    pub fn disk_hits(&self) -> (r: u64)
        ensures
            r == self.disk_hits_view(),
    {
        self.disk_hits
    }

    pub fn disk_misses(&self) -> (r: u64)
        ensures
            r == self.disk_misses_view(),
    {
        self.disk_misses
    }

    pub fn procedural_builds(&self) -> (r: u64)
        ensures
            r == self.procedural_builds_view(),
    {
        self.procedural_builds
    }

    pub fn procedural_failures(&self) -> (r: u64)
        ensures
            r == self.procedural_failures_view(),
    {
        self.procedural_failures
    }

    pub fn evictions(&self) -> (r: u64)
        ensures
            r == self.evictions_view(),
    {
        self.evictions
    }

    pub fn active_patches(&self) -> (r: usize)
        ensures
            r == self.active_patches_view(),
    {
        self.active_patches
    }

    pub fn max_active_budget(&self) -> (r: usize)
        ensures
            r == self.max_active_budget_view(),
    {
        self.max_active_budget
    }

    pub fn spawn_budget_last(&self) -> (r: u32)
        ensures
            r == self.spawn_budget_last_view(),
    {
        self.spawn_budget_last
    }

    pub fn active_history(&self) -> (r: &Vec<usize>)
        ensures
            r@ == self.active_history_view(),
    {
        &self.active_history
    }

    pub fn spawn_history(&self) -> (r: &Vec<u32>)
        ensures
            r@ == self.spawn_history_view(),
    {
        &self.spawn_history
    }

    /// Records the end-of-frame budgets: a zero capacity is reset to 240,
    /// the figures are stored and appended to the histories, which drop their
    /// oldest entry when they grow past the capacity.
    pub fn record_frame(&mut self, active: usize, max_active: usize, spawn_budget: u32)
        requires
            old(self).wf(),
        ensures
            final(self).wf(),
            final(self).history_capacity_view() == if old(self).history_capacity_view() == 0 {
                DEFAULT_HISTORY_CAPACITY
            } else {
                old(self).history_capacity_view()
            },
            final(self).active_patches_view() == active,
            final(self).max_active_budget_view() == max_active,
            final(self).spawn_budget_last_view() == spawn_budget,
            final(self).active_history_view() == pushed_history(
                old(self).active_history_view(),
                active,
                final(self).history_capacity_view() as nat,
            ),
            final(self).spawn_history_view() == pushed_history(
                old(self).spawn_history_view(),
                spawn_budget,
                final(self).history_capacity_view() as nat,
            ),
            final(self).disk_hits_view() == old(self).disk_hits_view(),
            final(self).disk_misses_view() == old(self).disk_misses_view(),
            final(self).procedural_builds_view() == old(self).procedural_builds_view(),
            final(self).procedural_failures_view() == old(self).procedural_failures_view(),
            final(self).evictions_view() == old(self).evictions_view(),
    {
        if self.history_capacity == 0 {
            self.history_capacity = DEFAULT_HISTORY_CAPACITY;
        }
        self.active_patches = active;
        self.max_active_budget = max_active;
        self.spawn_budget_last = spawn_budget;
        self.active_history.push(active);
        if self.active_history.len() > self.history_capacity {
            self.active_history.remove(0);
        }
        self.spawn_history.push(spawn_budget);
        if self.spawn_history.len() > self.history_capacity {
            self.spawn_history.remove(0);
        }
        proof {
            assert(old(self).active_history_view().push(active).drop_first() =~= old(
                self,
            ).active_history_view().push(active).remove(0));
            assert(old(self).spawn_history_view().push(spawn_budget).drop_first() =~= old(
                self,
            ).spawn_history_view().push(spawn_budget).remove(0));
        }
    }

    /// Books the outcome of a finished load.  Success counts a disk hit or a
    /// procedural build; failure counts a disk miss (and marks the bundle
    /// missing, so the next attempt is procedural) or a procedural failure.
    /// After a failure a still-wanted key is requested again.  Successful
    /// loads get a registry slot if they had none.  Returns whether the load
    /// failed.
    pub fn record_load_result(
        &mut self,
        key: PatchKey,
        method: PatchLoadMethod,
        succeeded: bool,
        context: &PlanetContextState,
        assets: &mut PatchAssetState,
        registry: &mut PatchRegistry,
        queue: &mut PatchRequestQueue,
    ) -> (failed: bool)
        requires
            old(assets).wf(),
            old(registry).wf(),
            old(queue).wf(),
        ensures
            final(assets).wf(),
            final(registry).wf(),
            final(queue).wf(),
            failed == !succeeded,
            final(self).wf() == old(self).wf(),
            final(self).disk_hits_view() == if succeeded && method == PatchLoadMethod::Disk {
                sat_add_u64(old(self).disk_hits_view(), 1)
            } else {
                old(self).disk_hits_view()
            },
            final(self).procedural_builds_view() == if succeeded && method == PatchLoadMethod::Procedural {
                sat_add_u64(old(self).procedural_builds_view(), 1)
            } else {
                old(self).procedural_builds_view()
            },
            final(self).disk_misses_view() == if !succeeded && method == PatchLoadMethod::Disk {
                sat_add_u64(old(self).disk_misses_view(), 1)
            } else {
                old(self).disk_misses_view()
            },
            final(self).procedural_failures_view() == if !succeeded && method == PatchLoadMethod::Procedural {
                sat_add_u64(old(self).procedural_failures_view(), 1)
            } else {
                old(self).procedural_failures_view()
            },
            final(self).evictions_view() == old(self).evictions_view(),
            final(assets).missing_view().to_set() == if !succeeded && method == PatchLoadMethod::Disk {
                old(assets).missing_view().to_set().insert(key)
            } else {
                old(assets).missing_view().to_set()
            },
            final(assets).missing_view() == if !succeeded && method == PatchLoadMethod::Disk
                && !old(assets).missing_view().contains(key) {
                old(assets).missing_view().push(key)
            } else {
                old(assets).missing_view()
            },
            final(assets).base_path_view() == old(assets).base_path_view(),
            final(registry).view_map() == if succeeded && !old(registry).view_map().contains_key(key) {
                old(registry).view_map().insert(key, crate::registry::PatchSlot { entity: None, active_children: 0 })
            } else {
                old(registry).view_map()
            },
            counts_consistent(old(registry).view_map()) ==> counts_consistent(final(registry).view_map()),
            final(queue)@ == if !succeeded && context.desired_view().contains(key) {
                enqueued(old(queue)@, key)
            } else {
                old(queue)@
            },
    {
        if succeeded {
            match method {
                PatchLoadMethod::Disk => {
                    self.disk_hits = self.disk_hits.saturating_add(1);
                },
                PatchLoadMethod::Procedural => {
                    self.procedural_builds = self.procedural_builds.saturating_add(1);
                },
            }
            registry.insert_generated(key);
            false
        } else {
            match method {
                PatchLoadMethod::Disk => {
                    self.disk_misses = self.disk_misses.saturating_add(1);
                    assets.mark_missing(key);
                },
                PatchLoadMethod::Procedural => {
                    self.procedural_failures = self.procedural_failures.saturating_add(1);
                },
            }
            if context.is_desired(&key) {
                queue.enqueue(key);
            }
            true
        }
    }
}

/// Decides which spawned patches to despawn after the frame: in orbit every
/// one; in the streaming layers those no longer wanted unless they still have
/// spawned children.  `spawned` lists `(entity, key)` pairs in query order;
/// despawning updates the counters before the next pair is judged.  Returns
/// the entities to despawn and the parent entities to show again.
pub fn prune_surface_patches(
    context: &PlanetContextState,
    spawned: &Vec<(u64, PatchKey)>,
    registry: &mut PatchRegistry,
) -> (r: (Vec<u64>, Vec<u64>))
    requires
        old(registry).wf(),
    ensures
        final(registry).wf(),
        r.0@ == pruned_entities(
            context.layer_view(),
            context.desired_view(),
            spawned@,
            old(registry).view_map(),
        ).0,
        r.1@ == pruned_entities(
            context.layer_view(),
            context.desired_view(),
            spawned@,
            old(registry).view_map(),
        ).1,
        final(registry).view_map() == pruned_entities(
            context.layer_view(),
            context.desired_view(),
            spawned@,
            old(registry).view_map(),
        ).2,
{
    let n = spawned.len();
    let mut despawn: Vec<u64> = Vec::new();
    let mut show: Vec<u64> = Vec::new();
    let orbit = context.layer() == PlanetContextLayer::Orbit;
    for i in 0..n
        invariant
            n == spawned@.len(),
            registry.wf(),
            orbit == (context.layer_view() == PlanetContextLayer::Orbit),
            despawn@ == pruned_entities(
                context.layer_view(),
                context.desired_view(),
                spawned@.take(i as int),
                old(registry).view_map(),
            ).0,
            show@ == pruned_entities(
                context.layer_view(),
                context.desired_view(),
                spawned@.take(i as int),
                old(registry).view_map(),
            ).1,
            registry.view_map() == pruned_entities(
                context.layer_view(),
                context.desired_view(),
                spawned@.take(i as int),
                old(registry).view_map(),
            ).2,
    {
        let (entity, key) = spawned[i];
        proof {
            assert(spawned@.take(i + 1).drop_last() =~= spawned@.take(i as int));
        }
        let prune = if orbit {
            true
        } else if context.is_desired(&key) {
            false
        } else {
            match registry.slot(&key) {
                Some(slot) => slot.active_children == 0,
                None => true,
            }
        };
        if prune {
            despawn.push(entity);
            match registry.despawn(key) {
                Some(parent) => show.push(parent),
                None => {},
            }
        }
    }
    proof {
        assert(spawned@.take(n as int) =~= spawned@);
    }
    (despawn, show)
}

/// Whether the pair `(entity, key)` is pruned against registry `m`.
pub open spec fn prunes(
    layer: PlanetContextLayer,
    desired: Seq<PatchKey>,
    key: PatchKey,
    m: Map<PatchKey, crate::registry::PatchSlot>,
) -> bool {
    layer == PlanetContextLayer::Orbit || (!desired.contains(key) && (!m.contains_key(key)
        || m[key].active_children == 0))
}

/// The entity of `key`'s parent when, in the registry `m` just after `key`
/// was spawned, that parent has all four children spawned.
pub open spec fn covered_parent(m: Map<PatchKey, crate::registry::PatchSlot>, key: PatchKey) -> Option<u64> {
    match parent_of(key) {
        Some(q) => if m.contains_key(q) && m[q].active_children >= 4 {
            m[q].entity
        } else {
            None
        },
        None => None,
    }
}

/// The entity of `key`'s parent when, in the registry `m` just after `key`
/// was despawned, that parent has fewer than four spawned children again.
pub open spec fn revealed_parent(m: Map<PatchKey, crate::registry::PatchSlot>, key: PatchKey) -> Option<u64> {
    match parent_of(key) {
        Some(q) => if m.contains_key(q) && m[q].active_children < 4 {
            m[q].entity
        } else {
            None
        },
        None => None,
    }
}

/// Entities pruned from `spawned` (in order), the parent entities to show
/// again (in order), and the registry afterwards.
pub open spec fn pruned_entities(
    layer: PlanetContextLayer,
    desired: Seq<PatchKey>,
    spawned: Seq<(u64, PatchKey)>,
    m: Map<PatchKey, crate::registry::PatchSlot>,
) -> (Seq<u64>, Seq<u64>, Map<PatchKey, crate::registry::PatchSlot>)
    decreases spawned.len(),
{
    if spawned.len() == 0 {
        (Seq::empty(), Seq::empty(), m)
    } else {
        let (ents, shows, m1) = pruned_entities(layer, desired, spawned.drop_last(), m);
        let (e, k) = spawned.last();
        if prunes(layer, desired, k, m1) {
            let m2 = after_despawn(m1, k);
            let shows2 = match revealed_parent(m2, k) {
                Some(p) => shows.push(p),
                None => shows,
            };
            (ents.push(e), shows2, m2)
        } else {
            (ents, shows, m1)
        }
    }
}

/// Per-frame climate sampling statistics (time in nanoseconds).
pub struct ClimateProfiler {
    pub frame_samples: u64,
    pub frame_time_ns: u128,
    pub last_samples: u64,
    pub last_time_ns: u128,
    pub max_samples: u64,
    pub max_time_ns: u128,
}

impl ClimateProfiler {
    /// Nothing recorded yet.
    pub fn new() -> (r: ClimateProfiler)
        ensures
            r.frame_samples == 0,
            r.frame_time_ns == 0,
            r.last_samples == 0,
            r.last_time_ns == 0,
            r.max_samples == 0,
            r.max_time_ns == 0,
    {
        ClimateProfiler {
            frame_samples: 0,
            frame_time_ns: 0,
            last_samples: 0,
            last_time_ns: 0,
            max_samples: 0,
            max_time_ns: 0,
        }
    }

    /// Adds one patch build to the running frame (samples saturate; the
    /// time sum must fit).
    pub fn record(&mut self, samples: u64, time_ns: u128)
        requires
            old(self).frame_time_ns + time_ns <= u128::MAX,
        ensures
            final(self).frame_samples == sat_add_u64(old(self).frame_samples, samples),
            final(self).frame_time_ns == old(self).frame_time_ns + time_ns,
            final(self).last_samples == old(self).last_samples,
            final(self).last_time_ns == old(self).last_time_ns,
            final(self).max_samples == old(self).max_samples,
            final(self).max_time_ns == old(self).max_time_ns,
    {
        self.frame_samples = self.frame_samples.saturating_add(samples);
        self.frame_time_ns = self.frame_time_ns + time_ns;
    }

    /// Closes the frame: its totals become the last-frame figures and raise
    /// the maxima; the running totals restart at zero.
    pub fn finish_frame(&mut self)
        ensures
            final(self).frame_samples == 0,
            final(self).frame_time_ns == 0,
            final(self).last_samples == old(self).frame_samples,
            final(self).last_time_ns == old(self).frame_time_ns,
            final(self).max_samples == if old(self).frame_samples > old(self).max_samples {
                old(self).frame_samples
            } else {
                old(self).max_samples
            },
            final(self).max_time_ns == if old(self).frame_time_ns > old(self).max_time_ns {
                old(self).frame_time_ns
            } else {
                old(self).max_time_ns
            },
    {
        if self.frame_samples == 0 && self.frame_time_ns == 0 {
            self.last_samples = 0;
            self.last_time_ns = 0;
        } else {
            self.last_samples = self.frame_samples;
            self.last_time_ns = self.frame_time_ns;
            if self.last_samples > self.max_samples {
                self.max_samples = self.last_samples;
            }
            if self.last_time_ns > self.max_time_ns {
                self.max_time_ns = self.last_time_ns;
            }
        }
        self.frame_samples = 0;
        self.frame_time_ns = 0;
    }
}

} // verus!
