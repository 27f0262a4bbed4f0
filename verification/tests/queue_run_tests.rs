use planet_surface::asset_state::PatchAssetState;
use planet_surface::context::{update_planet_context, PlanetContextLayer, PlanetContextState};
use planet_surface::key_set::PatchKeySet;
use planet_surface::patch_key::PatchKey;
use planet_surface::queue_run::{QueueRun, RunInput, RunPhase, RunRequest};
use planet_surface::registry::PatchRegistry;
use planet_surface::request_queue::PatchRequestQueue;
use planet_surface::scheduler::{PatchCacheMetrics, PatchLoadMethod};

fn root(face: u8) -> PatchKey {
    PatchKey { face, level: 0, ix: 0, iy: 0 }
}

/// A context wanting `keys`, and the queue it requested them in.
fn wanting(keys: &[PatchKey]) -> (PlanetContextState, PatchRequestQueue) {
    let mut ctx = PlanetContextState::new();
    let mut queue = PatchRequestQueue::new();
    let mut wanted = PatchKeySet::new();
    for k in keys {
        wanted.insert(*k);
    }
    update_planet_context(&mut ctx, &mut queue, PlanetContextLayer::Surface, &wanted, 0);
    (ctx, queue)
}

#[test]
fn a_generated_patch_is_spawned_and_a_missing_one_loaded() {
    let (ctx, mut queue) = wanting(&[root(0), root(1)]);
    let mut reg = PatchRegistry::new();
    reg.insert_generated(root(1));
    let assets = PatchAssetState::new();
    let mut metrics = PatchCacheMetrics::new();
    let mut run = QueueRun::begin(&reg, 4, 10);
    let none: Vec<PatchKey> = Vec::new();
    // root(1) ranks first.
    let step = run.step(RunInput::Priorities(vec![5, 1]), &ctx, &mut reg, &mut queue, &assets, &mut metrics, &none);
    assert_eq!(step.request, RunRequest::Spawn(root(1)));
    assert_eq!(run.phase(), RunPhase::Spawning(root(1)));
    let step = run.step(RunInput::Spawned(42), &ctx, &mut reg, &mut queue, &assets, &mut metrics, &none);
    assert_eq!(step.request, RunRequest::Cover { entity: 42, hide_spawned: false, hide_parent: None });
    assert_eq!(reg.slot(&root(1)).unwrap().entity, Some(42));
    let step = run.step(RunInput::Priorities(vec![0]), &ctx, &mut reg, &mut queue, &assets, &mut metrics, &none);
    assert_eq!(step.request, RunRequest::StartLoad(root(0), PatchLoadMethod::Disk));
    let step = run.step(RunInput::Priorities(vec![]), &ctx, &mut reg, &mut queue, &assets, &mut metrics, &none);
    assert_eq!(step.request, RunRequest::Done);
    assert_eq!(run.finish(&mut queue), 1);
    // The load is still pending, so its request waits for the next frame.
    assert_eq!(queue.pending(), &vec![root(0)]);
}

#[test]
fn a_full_active_budget_asks_for_evictions() {
    let (ctx, mut queue) = wanting(&[root(0), root(1)]);
    let mut reg = PatchRegistry::new();
    reg.insert_generated(root(0));
    reg.insert_generated(root(1));
    reg.spawn(root(0), 9);
    // root(0) is already spawned; only root(1) waits.
    let mut q = PatchRequestQueue::new();
    q.enqueue(root(1));
    queue = q;
    let assets = PatchAssetState::new();
    let mut metrics = PatchCacheMetrics::new();
    let mut run = QueueRun::begin(&reg, 4, 1);
    let none: Vec<PatchKey> = Vec::new();
    let step = run.step(RunInput::Priorities(vec![3]), &ctx, &mut reg, &mut queue, &assets, &mut metrics, &none);
    assert_eq!(step.request, RunRequest::Eviction(root(1)));
    // A wrong report is answered with the same request.
    let again = run.step(RunInput::Spawned(1), &ctx, &mut reg, &mut queue, &assets, &mut metrics, &none);
    assert_eq!(again.request, RunRequest::Eviction(root(1)));
    let step = run.step(RunInput::Eviction(Some(root(0))), &ctx, &mut reg, &mut queue, &assets, &mut metrics, &none);
    assert_eq!(step.request, RunRequest::Spawn(root(1)));
    assert_eq!(metrics.evictions(), 1);
    // The evicted key is still wanted, so it is requested again.
    assert_eq!(queue.pending(), &vec![root(0)]);
    let step = run.step(RunInput::Spawned(7), &ctx, &mut reg, &mut queue, &assets, &mut metrics, &none);
    assert!(matches!(step.request, RunRequest::Cover { entity: 7, .. }));
}

#[test]
fn no_eviction_defers_and_a_spent_budget_stops() {
    let (ctx, mut queue) = wanting(&[root(2), root(3)]);
    let mut reg = PatchRegistry::new();
    reg.insert_generated(root(2));
    reg.insert_generated(root(3));
    let assets = PatchAssetState::new();
    let mut metrics = PatchCacheMetrics::new();
    let none: Vec<PatchKey> = Vec::new();
    let mut run = QueueRun::begin(&reg, 1, 0);
    let step = run.step(RunInput::Priorities(vec![1, 2]), &ctx, &mut reg, &mut queue, &assets, &mut metrics, &none);
    assert_eq!(step.request, RunRequest::Eviction(root(2)));
    let step = run.step(RunInput::Eviction(None), &ctx, &mut reg, &mut queue, &assets, &mut metrics, &none);
    assert_eq!(step.request, RunRequest::Priorities);
    let mut run2 = QueueRun::begin(&reg, 0, 10);
    let step = run2.step(RunInput::Priorities(vec![1]), &ctx, &mut reg, &mut queue, &assets, &mut metrics, &none);
    assert_eq!(step.request, RunRequest::Done);
    assert_eq!(run2.phase(), RunPhase::Done);
}
