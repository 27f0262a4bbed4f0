//! One frame of the request queue, decided step by step.  The caller does
//! the outside work (ranking the waiting keys, choosing a leaf to evict,
//! spawning entities, starting loads) and reports back; each step picks the
//! next request, makes room, spawns or starts a load within the frame's
//! budgets, and says what the caller must do next.
use vstd::prelude::*;

use crate::asset_state::PatchAssetState;
use crate::context::PlanetContextState;
use crate::key_set::vec_contains;
use crate::patch_key::{PatchKey, parent_of};
use crate::registry::{PatchRegistry, PatchSlot, after_despawn, after_spawn};
use crate::request_queue::{PatchRequestQueue, enqueued, is_first_min, swap_removed};
use crate::scheduler::{
    PatchAction, PatchCacheMetrics, PatchLoadMethod, QueueFrame, Triage, covered_parent, revealed_parent,
    sat_add_u64, settle_action,
};

verus! {

/// Where a frame stands.
#[derive(Clone, Copy, Debug, PartialEq, Eq, Structural)]
pub enum RunPhase {
    /// Waiting for the ranks of the waiting keys, to take the next one.
    Pick,
    /// Making room for `key`: waiting for an eviction answer.
    Place(PatchKey),
    /// Waiting for the entity spawned for `key`.
    Spawning(PatchKey),
    /// The frame is over.
    Done,
}

/// What the caller reports.
#[derive(Clone, Debug)]
pub enum RunInput {
    /// The rank of each waiting key, slot by slot as in `pending()`; lower first.
    Priorities(Vec<i64>),
    /// The spawned leaf to evict to make room, or `None` when no eviction pays.
    Eviction(Option<PatchKey>),
    /// The entity just spawned.
    Spawned(u64),
}

/// What the caller must do next.
#[derive(Clone, Copy, Debug, PartialEq, Eq)]
pub enum RunRequest {
    /// Report the ranks of the waiting keys.
    Priorities,
    /// Report a leaf to evict to make room for this key, if one pays.
    Eviction(PatchKey),
    /// Spawn an entity for this key and report it.
    Spawn(PatchKey),
    /// Mark the new entity (and the parent) as covered as given, then report ranks.
    Cover { entity: u64, hide_spawned: bool, hide_parent: Option<u64> },
    /// The spawned entity cannot be used; despawn it, then report ranks.
    Discard(u64),
    /// Start loading this key by this method, then report ranks.
    StartLoad(PatchKey, PatchLoadMethod),
    /// The frame is over.
    Done,
}

/// One step's answer: the request, and the entity of a parent to show again
/// after an eviction.
#[derive(Clone, Copy, Debug, PartialEq, Eq)]
pub struct RunStep {
    pub request: RunRequest,
    pub shown: Option<u64>,
}

/// The first slot holding the smallest rank.
pub open spec fn first_min(pr: Seq<i64>) -> int {
    choose|b: int| is_first_min(pr, b)
}

proof fn lemma_first_min_unique(pr: Seq<i64>, b1: int, b2: int)
    requires
        is_first_min(pr, b1),
        is_first_min(pr, b2),
    ensures
        b1 == b2,
{
    if b1 < b2 {
        assert(pr[b2] < pr[b1]);
    } else if b2 < b1 {
        assert(pr[b1] < pr[b2]);
    }
}

/// The first-stage verdict on `key`.
pub open spec fn triage_verdict(
    desired: Seq<PatchKey>,
    budget: u32,
    spawned: u32,
    m: Map<PatchKey, PatchSlot>,
    key: PatchKey,
) -> Triage {
    if !desired.contains(key) {
        Triage::Drop
    } else if budget == 0 {
        Triage::DeferAndStop
    } else if key.level > 0 && !m.contains_key(parent_of(key).unwrap()) {
        Triage::Defer
    } else if spawned >= budget {
        Triage::DeferAndStop
    } else {
        Triage::Proceed
    }
}

/// Phase, deferred requests and request after the second stage for `key`.
pub open spec fn settle_step(
    key: PatchKey,
    active: usize,
    maxa: usize,
    spawned: u32,
    budget: u32,
    m: Map<PatchKey, PatchSlot>,
    missing: Seq<PatchKey>,
    tasks: Seq<PatchKey>,
    deferred: Seq<PatchKey>,
) -> (RunPhase, Seq<PatchKey>, RunRequest) {
    let a = settle_action(
        active as int,
        maxa as int,
        spawned as int,
        budget as int,
        m,
        missing,
        key,
        tasks.contains(key),
        tasks.len() as int,
    );
    let d = if a == PatchAction::Spawn || a == PatchAction::Skip {
        deferred
    } else {
        deferred.push(key)
    };
    match a {
        PatchAction::Spawn => (RunPhase::Spawning(key), d, RunRequest::Spawn(key)),
        PatchAction::StartDiskLoad => (RunPhase::Pick, d, RunRequest::StartLoad(key, PatchLoadMethod::Disk)),
        PatchAction::StartProceduralLoad => (
            RunPhase::Pick,
            d,
            RunRequest::StartLoad(key, PatchLoadMethod::Procedural),
        ),
        _ => (RunPhase::Pick, d, RunRequest::Priorities),
    }
}

/// Placing `key`: ask for an eviction while the active budget is used up,
/// otherwise go to the second stage.
pub open spec fn place_step(
    key: PatchKey,
    active: usize,
    maxa: usize,
    spawned: u32,
    budget: u32,
    m: Map<PatchKey, PatchSlot>,
    missing: Seq<PatchKey>,
    tasks: Seq<PatchKey>,
    deferred: Seq<PatchKey>,
) -> (RunPhase, Seq<PatchKey>, RunRequest) {
    if active >= maxa {
        (RunPhase::Place(key), deferred, RunRequest::Eviction(key))
    } else {
        settle_step(key, active, maxa, spawned, budget, m, missing, tasks, deferred)
    }
}

/// The frame's state as the steps see it.
pub struct RunState {
    pub phase: RunPhase,
    pub spawned: u32,
    pub active: usize,
    pub deferred: Seq<PatchKey>,
    pub m: Map<PatchKey, PatchSlot>,
    pub q: Seq<PatchKey>,
    /// An eviction happened in this step.
    pub evicted: bool,
}

/// One step from state `s` on input `input`: the next state and the answer.
pub open spec fn run_step_spec(
    s: RunState,
    budget: u32,
    maxa: usize,
    desired: Seq<PatchKey>,
    missing: Seq<PatchKey>,
    tasks: Seq<PatchKey>,
    input: RunInput,
) -> (RunState, RunStep) {
    let same = RunState { evicted: false, ..s };
    let ask = |r: RunRequest| RunStep { request: r, shown: None };
    match s.phase {
        RunPhase::Done => (same, ask(RunRequest::Done)),
        RunPhase::Pick => match input {
            RunInput::Priorities(pr) => if pr@.len() != s.q.len() {
                (same, ask(RunRequest::Priorities))
            } else if s.q.len() == 0 {
                (RunState { phase: RunPhase::Done, ..same }, ask(RunRequest::Done))
            } else {
                let b = first_min(pr@);
                let key = s.q[b];
                let q1 = swap_removed(s.q, b);
                match triage_verdict(desired, budget, s.spawned, s.m, key) {
                    Triage::Drop => (RunState { q: q1, ..same }, ask(RunRequest::Priorities)),
                    Triage::Defer => (
                        RunState { q: q1, deferred: s.deferred.push(key), ..same },
                        ask(RunRequest::Priorities),
                    ),
                    Triage::DeferAndStop => (
                        RunState { q: q1, deferred: s.deferred.push(key), phase: RunPhase::Done, ..same },
                        ask(RunRequest::Done),
                    ),
                    Triage::Proceed => {
                        let (ph, d, r) = place_step(
                            key,
                            s.active,
                            maxa,
                            s.spawned,
                            budget,
                            s.m,
                            missing,
                            tasks,
                            s.deferred,
                        );
                        (RunState { q: q1, deferred: d, phase: ph, ..same }, ask(r))
                    },
                }
            },
            _ => (same, ask(RunRequest::Priorities)),
        },
        RunPhase::Place(key) => match input {
            RunInput::Eviction(Some(e)) => {
                let m1 = after_despawn(s.m, e);
                let q1 = if desired.contains(e) {
                    enqueued(s.q, e)
                } else {
                    s.q
                };
                let a1: usize = if s.active == 0 {
                    0
                } else {
                    (s.active - 1) as usize
                };
                let (ph, d, r) = place_step(key, a1, maxa, s.spawned, budget, m1, missing, tasks, s.deferred);
                (
                    RunState { phase: ph, active: a1, deferred: d, m: m1, q: q1, evicted: true, ..s },
                    RunStep { request: r, shown: revealed_parent(m1, e) },
                )
            },
            RunInput::Eviction(None) => {
                let (ph, d, r) = settle_step(key, s.active, maxa, s.spawned, budget, s.m, missing, tasks, s.deferred);
                (RunState { phase: ph, deferred: d, ..same }, ask(r))
            },
            _ => (same, ask(RunRequest::Eviction(key))),
        },
        RunPhase::Spawning(key) => match input {
            RunInput::Spawned(id) => if s.m.contains_key(key) && s.m[key].entity is None && s.spawned < budget
                && s.active < maxa {
                let m1 = after_spawn(s.m, key, id);
                (
                    RunState {
                        phase: RunPhase::Pick,
                        spawned: (s.spawned + 1) as u32,
                        active: (s.active + 1) as usize,
                        m: m1,
                        ..same
                    },
                    ask(
                        RunRequest::Cover {
                            entity: id,
                            hide_spawned: s.m[key].active_children >= 4,
                            hide_parent: covered_parent(m1, key),
                        },
                    ),
                )
            } else {
                (RunState { phase: RunPhase::Pick, ..same }, ask(RunRequest::Discard(id)))
            },
            _ => (same, ask(RunRequest::Spawn(key))),
        },
    }
}

/// The key a phase is working on is wanted.
pub open spec fn phase_wanted(phase: RunPhase, desired: Seq<PatchKey>) -> bool {
    match phase {
        RunPhase::Place(k) => desired.contains(k),
        RunPhase::Spawning(k) => desired.contains(k),
        _ => true,
    }
}

/// Every step of a frame keeps it within its budgets and works only on
/// wanted keys: the spawned count stays within the spawn budget, the number
/// of spawned leaves stays within any bound that is at least the active
/// budget and held before the step, a spawn or a load is only asked for a
/// wanted key, and a load only while fewer than `MAX_CONCURRENT_TASKS` run
/// and none runs for that key.  So over a whole frame, started within these
/// bounds, they hold after every step.
pub proof fn lemma_run_step_within_budgets(
    s: RunState,
    budget: u32,
    maxa: usize,
    desired: Seq<PatchKey>,
    missing: Seq<PatchKey>,
    tasks: Seq<PatchKey>,
    input: RunInput,
    bound: int,
)
    requires
        s.spawned <= budget,
        s.active <= bound,
        maxa <= bound,
        phase_wanted(s.phase, desired),
    ensures
        ({
            let (s2, out) = run_step_spec(s, budget, maxa, desired, missing, tasks, input);
            &&& s2.spawned <= budget
            &&& s2.active <= bound
            &&& phase_wanted(s2.phase, desired)
            &&& (out.request matches RunRequest::Spawn(k) ==> desired.contains(k))
            &&& (out.request matches RunRequest::StartLoad(k, _) ==> desired.contains(k) && !tasks.contains(k)
                && tasks.len() < crate::scheduler::MAX_CONCURRENT_TASKS)
        }),
{
}

/// A frame of the request queue in progress.
pub struct QueueRun {
    frame: QueueFrame,
    phase: RunPhase,
}

impl QueueRun {
    /// Where the frame stands.
    pub closed spec fn phase_view(&self) -> RunPhase {
        self.phase
    }

    /// The frame's counters and deferred requests.
    pub closed spec fn frame_view(&self) -> QueueFrame {
        self.frame
    }

    /// The frame's state, given the registry and the queue it works on.
    pub open spec fn state(&self, m: Map<PatchKey, PatchSlot>, q: Seq<PatchKey>) -> RunState {
        RunState {
            phase: self.phase_view(),
            spawned: self.frame_view().spawned_view(),
            active: self.frame_view().active_view(),
            deferred: self.frame_view().deferred_view(),
            m,
            q,
            evicted: false,
        }
    }

    /// The frame never spawns more than its budget.
    pub open spec fn wf(&self) -> bool {
        self.frame_view().wf()
    }

    /// Starts a frame with the given budgets, waiting for ranks.
    pub fn begin(registry: &PatchRegistry, spawn_budget: u32, max_active: usize) -> (r: QueueRun)
        requires
            registry.wf(),
        ensures
            r.wf(),
            r.phase_view() == RunPhase::Pick,
            r.frame_view().spawn_budget_view() == spawn_budget,
            r.frame_view().max_active_view() == max_active,
            r.frame_view().spawned_view() == 0,
            r.frame_view().active_view() == crate::registry::leaf_count(registry.slots_view()),
            r.frame_view().deferred_view() == Seq::<PatchKey>::empty(),
    {
        QueueRun { frame: QueueFrame::begin(registry, spawn_budget, max_active), phase: RunPhase::Pick }
    }

    /// Where the frame stands.
    pub fn phase(&self) -> (r: RunPhase)
        ensures
            r == self.phase_view(),
    {
        self.phase
    }

    fn settle_now(
        &mut self,
        key: PatchKey,
        registry: &PatchRegistry,
        assets: &PatchAssetState,
        task_keys: &Vec<PatchKey>,
    ) -> (r: RunRequest)
        requires
            registry.wf(),
        ensures
            final(self).frame_view().spawn_budget_view() == old(self).frame_view().spawn_budget_view(),
            final(self).frame_view().max_active_view() == old(self).frame_view().max_active_view(),
            final(self).frame_view().spawned_view() == old(self).frame_view().spawned_view(),
            final(self).frame_view().active_view() == old(self).frame_view().active_view(),
            (final(self).phase_view(), final(self).frame_view().deferred_view(), r) == settle_step(
                key,
                old(self).frame_view().active_view(),
                old(self).frame_view().max_active_view(),
                old(self).frame_view().spawned_view(),
                old(self).frame_view().spawn_budget_view(),
                registry.view_map(),
                assets.missing_view(),
                task_keys@,
                old(self).frame_view().deferred_view(),
            ),
    {
        let has_task = vec_contains(task_keys, &key);
        let action = self.frame.settle(key, registry, assets, has_task, task_keys.len());
        match action {
            PatchAction::Spawn => {
                self.phase = RunPhase::Spawning(key);
                RunRequest::Spawn(key)
            },
            PatchAction::StartDiskLoad => {
                self.phase = RunPhase::Pick;
                RunRequest::StartLoad(key, PatchLoadMethod::Disk)
            },
            PatchAction::StartProceduralLoad => {
                self.phase = RunPhase::Pick;
                RunRequest::StartLoad(key, PatchLoadMethod::Procedural)
            },
            _ => {
                self.phase = RunPhase::Pick;
                RunRequest::Priorities
            },
        }
    }

    fn place_now(
        &mut self,
        key: PatchKey,
        registry: &PatchRegistry,
        assets: &PatchAssetState,
        task_keys: &Vec<PatchKey>,
    ) -> (r: RunRequest)
        requires
            registry.wf(),
        ensures
            final(self).frame_view().spawn_budget_view() == old(self).frame_view().spawn_budget_view(),
            final(self).frame_view().max_active_view() == old(self).frame_view().max_active_view(),
            final(self).frame_view().spawned_view() == old(self).frame_view().spawned_view(),
            final(self).frame_view().active_view() == old(self).frame_view().active_view(),
            (final(self).phase_view(), final(self).frame_view().deferred_view(), r) == place_step(
                key,
                old(self).frame_view().active_view(),
                old(self).frame_view().max_active_view(),
                old(self).frame_view().spawned_view(),
                old(self).frame_view().spawn_budget_view(),
                registry.view_map(),
                assets.missing_view(),
                task_keys@,
                old(self).frame_view().deferred_view(),
            ),
    {
        if self.frame.needs_eviction() {
            self.phase = RunPhase::Place(key);
            RunRequest::Eviction(key)
        } else {
            self.settle_now(key, registry, assets, task_keys)
        }
    }

    /// One step of the frame: acts on what the caller reports and says what
    /// it must do next.  While picking, the waiting key with the lowest rank
    /// is taken and judged; a key that may go on gets room made for it by
    /// evictions the caller proposes, and is then spawned, loaded or
    /// deferred within the frame's budgets.  `task_keys` are the keys with a
    /// load running.
    pub fn step(
        &mut self,
        input: RunInput,
        context: &PlanetContextState,
        registry: &mut PatchRegistry,
        queue: &mut PatchRequestQueue,
        assets: &PatchAssetState,
        metrics: &mut PatchCacheMetrics,
        task_keys: &Vec<PatchKey>,
    ) -> (r: RunStep)
        requires
            old(self).wf(),
            old(registry).wf(),
            old(queue).wf(),
        ensures
            final(self).wf(),
            final(registry).wf(),
            final(queue).wf(),
            final(self).frame_view().spawn_budget_view() == old(self).frame_view().spawn_budget_view(),
            final(self).frame_view().max_active_view() == old(self).frame_view().max_active_view(),
            ({
                let (s, out) = run_step_spec(
                    old(self).state(old(registry).view_map(), old(queue)@),
                    old(self).frame_view().spawn_budget_view(),
                    old(self).frame_view().max_active_view(),
                    context.desired_view(),
                    assets.missing_view(),
                    task_keys@,
                    input,
                );
                &&& final(self).phase_view() == s.phase
                &&& final(self).frame_view().spawned_view() == s.spawned
                &&& final(self).frame_view().active_view() == s.active
                &&& final(self).frame_view().deferred_view() == s.deferred
                &&& final(registry).view_map() == s.m
                &&& final(queue)@ == s.q
                &&& final(metrics).evictions_view() == if s.evicted {
                    sat_add_u64(old(metrics).evictions_view(), 1)
                } else {
                    old(metrics).evictions_view()
                }
                &&& r == out
            }),
    {
        let ghost m0 = registry.view_map();
        let ghost q0 = queue@;
        match self.phase {
            RunPhase::Done => RunStep { request: RunRequest::Done, shown: None },
            RunPhase::Pick => {
                match input {
                    RunInput::Priorities(pr) => {
                        if pr.len() != queue.len() {
                            return RunStep { request: RunRequest::Priorities, shown: None };
                        }
                        match queue.pop_best(&pr) {
                            None => {
                                self.phase = RunPhase::Done;
                                RunStep { request: RunRequest::Done, shown: None }
                            },
                            Some((key, _)) => {
                                proof {
                                    let b = choose|b: int| #[trigger] is_first_min(pr@, b) && key == q0[b]
                                        && queue@ == swap_removed(q0, b);
                                    let c = first_min(pr@);
                                    assert(is_first_min(pr@, c));
                                    lemma_first_min_unique(pr@, b, c);
                                }
                                let t = self.frame.triage(key, context, registry);
                                match t {
                                    Triage::Drop | Triage::Defer => RunStep {
                                        request: RunRequest::Priorities,
                                        shown: None,
                                    },
                                    Triage::DeferAndStop => {
                                        self.phase = RunPhase::Done;
                                        RunStep { request: RunRequest::Done, shown: None }
                                    },
                                    Triage::Proceed => {
                                        let req = self.place_now(key, registry, assets, task_keys);
                                        RunStep { request: req, shown: None }
                                    },
                                }
                            },
                        }
                    },
                    _ => RunStep { request: RunRequest::Priorities, shown: None },
                }
            },
            RunPhase::Place(key) => {
                match input {
                    RunInput::Eviction(Some(e)) => {
                        let shown = self.frame.evict(e, context, registry, queue, metrics);
                        let req = self.place_now(key, registry, assets, task_keys);
                        RunStep { request: req, shown }
                    },
                    RunInput::Eviction(None) => {
                        let req = self.settle_now(key, registry, assets, task_keys);
                        RunStep { request: req, shown: None }
                    },
                    _ => RunStep { request: RunRequest::Eviction(key), shown: None },
                }
            },
            RunPhase::Spawning(key) => {
                match input {
                    RunInput::Spawned(id) => {
                        let free = match registry.slot(&key) {
                            Some(slot) => slot.entity.is_none(),
                            None => false,
                        };
                        if free && self.frame.spawned() < self.frame.spawn_budget() && self.frame.active()
                            < self.frame.max_active() {
                            let vis = self.frame.commit_spawn(key, id, registry);
                            self.phase = RunPhase::Pick;
                            RunStep {
                                request: RunRequest::Cover {
                                    entity: id,
                                    hide_spawned: vis.hide_spawned,
                                    hide_parent: vis.hide_parent,
                                },
                                shown: None,
                            }
                        } else {
                            self.phase = RunPhase::Pick;
                            RunStep { request: RunRequest::Discard(id), shown: None }
                        }
                    },
                    _ => RunStep { request: RunRequest::Spawn(key), shown: None },
                }
            },
        }
    }

    /// Ends the frame: the deferred requests go back into the queue, in
    /// order; returns the number of spawned leaves.
    pub fn finish(self, queue: &mut PatchRequestQueue) -> (r: usize)
        requires
            old(queue).wf(),
        ensures
            final(queue).wf(),
            final(queue)@ == crate::context::enqueue_all(old(queue)@, self.frame_view().deferred_view()),
            r == self.frame_view().active_view(),
    {
        let active = self.frame.active();
        let deferred = self.frame.finish();
        let n = deferred.len();
        for i in 0..n
            invariant
                n == deferred@.len(),
                queue.wf(),
                queue@ == crate::context::enqueue_all(old(queue)@, deferred@.take(i as int)),
        {
            proof {
                assert(deferred@.take(i + 1).drop_last() =~= deferred@.take(i as int));
            }
            queue.enqueue(deferred[i]);
        }
        assert(deferred@.take(n as int) =~= deferred@);
        active
    }
}

} // verus!
