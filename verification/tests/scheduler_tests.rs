use planet_surface::asset_state::PatchAssetState;
use planet_surface::context::{update_planet_context, PlanetContextLayer, PlanetContextState};
use planet_surface::key_set::PatchKeySet;
use planet_surface::patch_key::PatchKey;
use planet_surface::registry::PatchRegistry;
use planet_surface::request_queue::PatchRequestQueue;
use planet_surface::scheduler::{
    prune_surface_patches, ClimateProfiler, PatchAction, PatchCacheMetrics, PatchLoadMethod, QueueFrame, Triage,
    DEFAULT_HISTORY_CAPACITY, MAX_CONCURRENT_TASKS,
};

fn root(face: u8) -> PatchKey {
    PatchKey { face, level: 0, ix: 0, iy: 0 }
}

fn context_wanting(keys: &[PatchKey], layer: PlanetContextLayer) -> PlanetContextState {
    let mut ctx = PlanetContextState::new();
    let mut queue = PatchRequestQueue::new();
    let mut wanted = PatchKeySet::new();
    for k in keys {
        wanted.insert(*k);
    }
    update_planet_context(&mut ctx, &mut queue, layer, &wanted, 0);
    ctx
}

#[test]
fn triage_drops_unwanted_and_defers_orphans() {
    let child = root(0).children()[1];
    let ctx = context_wanting(&[root(0), child], PlanetContextLayer::Surface);
    let reg = PatchRegistry::new();
    let mut frame = QueueFrame::begin(&reg, 4, 10);
    assert_eq!(frame.triage(root(5), &ctx, &reg), Triage::Drop);
    assert_eq!(frame.triage(child, &ctx, &reg), Triage::Defer);
    assert_eq!(frame.triage(root(0), &ctx, &reg), Triage::Proceed);
    assert_eq!(frame.finish(), vec![child]);
}

#[test]
fn triage_without_budget_stops_the_frame() {
    let ctx = context_wanting(&[root(0)], PlanetContextLayer::Surface);
    let reg = PatchRegistry::new();
    let mut frame = QueueFrame::begin(&reg, 0, 10);
    assert_eq!(frame.triage(root(0), &ctx, &reg), Triage::DeferAndStop);
}

#[test]
fn settle_starts_loads_and_spawns_generated_patches() {
    let mut reg = PatchRegistry::new();
    let mut assets = PatchAssetState::new();
    let mut frame = QueueFrame::begin(&reg, 2, 10);
    assert_eq!(frame.settle(root(0), &reg, &assets, false, 0), PatchAction::StartDiskLoad);
    assert_eq!(frame.settle(root(0), &reg, &assets, true, 0), PatchAction::Defer);
    assert_eq!(frame.settle(root(0), &reg, &assets, false, MAX_CONCURRENT_TASKS), PatchAction::Defer);
    assets.mark_missing(root(0));
    assert_eq!(frame.settle(root(0), &reg, &assets, false, 0), PatchAction::StartProceduralLoad);
    reg.insert_generated(root(0));
    assert_eq!(frame.settle(root(0), &reg, &assets, false, 0), PatchAction::Spawn);
    let vis = frame.commit_spawn(root(0), 42, &mut reg);
    assert!(!vis.hide_spawned);
    assert_eq!(frame.spawned(), 1);
    assert_eq!(frame.active(), 1);
    assert_eq!(frame.settle(root(0), &reg, &assets, false, 0), PatchAction::Skip);
}

#[test]
fn active_budget_forces_eviction_and_deferral() {
    let ctx = context_wanting(&[root(0), root(1)], PlanetContextLayer::Surface);
    let mut reg = PatchRegistry::new();
    reg.insert_generated(root(0));
    reg.spawn(root(0), 9);
    let assets = PatchAssetState::new();
    let mut queue = PatchRequestQueue::new();
    let mut metrics = PatchCacheMetrics::new();
    let mut frame = QueueFrame::begin(&reg, 3, 1);
    assert!(frame.needs_eviction());
    assert_eq!(frame.settle(root(1), &reg, &assets, false, 0), PatchAction::Defer);
    let shown = frame.evict(root(0), &ctx, &mut reg, &mut queue, &mut metrics);
    assert_eq!(shown, None);
    assert!(!frame.needs_eviction());
    assert_eq!(queue.pending(), &vec![root(0)]);
    assert_eq!(metrics.evictions(), 1);
    assert_eq!(reg.slot(&root(0)).unwrap().entity, None);
}

#[test]
fn load_results_update_counters_and_requeue_failures() {
    let ctx = context_wanting(&[root(2)], PlanetContextLayer::Approach);
    let mut assets = PatchAssetState::new();
    let mut reg = PatchRegistry::new();
    let mut queue = PatchRequestQueue::new();
    let mut metrics = PatchCacheMetrics::new();
    let failed =
        metrics.record_load_result(root(2), PatchLoadMethod::Disk, false, &ctx, &mut assets, &mut reg, &mut queue);
    assert!(failed);
    assert_eq!(metrics.disk_misses(), 1);
    assert!(assets.is_marked_missing(&root(2)));
    assert_eq!(queue.pending(), &vec![root(2)]);
    let failed = metrics.record_load_result(
        root(2),
        PatchLoadMethod::Procedural,
        true,
        &ctx,
        &mut assets,
        &mut reg,
        &mut queue,
    );
    assert!(!failed);
    assert_eq!(metrics.procedural_builds(), 1);
    assert!(reg.contains(&root(2)));
    assert_eq!(metrics.disk_hits(), 0);
    assert_eq!(metrics.procedural_failures(), 0);
}

#[test]
fn history_keeps_the_most_recent_frames() {
    let mut metrics = PatchCacheMetrics::new();
    for i in 0..(DEFAULT_HISTORY_CAPACITY + 5) {
        metrics.record_frame(i, 100, i as u32);
    }
    assert_eq!(metrics.active_history().len(), DEFAULT_HISTORY_CAPACITY);
    assert_eq!(metrics.active_history()[0], 5);
    assert_eq!(*metrics.spawn_history().last().unwrap(), (DEFAULT_HISTORY_CAPACITY + 4) as u32);
    assert_eq!(metrics.active_patches(), DEFAULT_HISTORY_CAPACITY + 4);
    assert_eq!(metrics.max_active_budget(), 100);
    assert_eq!(metrics.spawn_budget_last(), (DEFAULT_HISTORY_CAPACITY + 4) as u32);
}

#[test]
fn orbit_prunes_every_spawned_patch() {
    let ctx = context_wanting(&[root(0)], PlanetContextLayer::Orbit);
    let mut reg = PatchRegistry::new();
    reg.insert_generated(root(0));
    reg.spawn(root(0), 11);
    let (gone, shown) = prune_surface_patches(&ctx, &vec![(11, root(0))], &mut reg);
    assert_eq!(gone, vec![11]);
    assert!(shown.is_empty());
    assert_eq!(reg.slot(&root(0)).unwrap().entity, None);
}

#[test]
fn unwanted_leaf_is_pruned_and_its_parent_shown() {
    let kids = root(1).children();
    let ctx = context_wanting(&[root(1)], PlanetContextLayer::Surface);
    let mut reg = PatchRegistry::new();
    reg.insert_generated(root(1));
    reg.spawn(root(1), 1);
    for (i, kid) in kids.iter().enumerate() {
        reg.insert_generated(*kid);
        reg.spawn(*kid, 10 + i as u64);
    }
    let spawned = vec![(1, root(1)), (10, kids[0]), (11, kids[1])];
    let (gone, shown) = prune_surface_patches(&ctx, &spawned, &mut reg);
    assert_eq!(gone, vec![10, 11]);
    // The first removal leaves three children: the parent shows again; the
    // second removal reports it again.
    assert_eq!(shown, vec![1, 1]);
    assert_eq!(reg.slot(&root(1)).unwrap().active_children, 2);
}

#[test]
fn profiler_rolls_frames_over() {
    let mut p = ClimateProfiler::new();
    p.record(10, 500);
    p.record(5, 250);
    p.finish_frame();
    assert_eq!((p.last_samples, p.last_time_ns), (15, 750));
    assert_eq!((p.max_samples, p.max_time_ns), (15, 750));
    assert_eq!((p.frame_samples, p.frame_time_ns), (0, 0));
    p.record(3, 100);
    p.finish_frame();
    assert_eq!((p.last_samples, p.last_time_ns), (3, 100));
    assert_eq!((p.max_samples, p.max_time_ns), (15, 750));
    p.finish_frame();
    assert_eq!((p.last_samples, p.last_time_ns), (0, 0));
}

#[test]
fn spent_spawn_budget_defers_a_generated_patch() {
    let mut reg = PatchRegistry::new();
    let assets = PatchAssetState::new();
    reg.insert_generated(root(0));
    reg.insert_generated(root(1));
    let mut frame = QueueFrame::begin(&reg, 1, 10);
    assert_eq!(frame.settle(root(0), &reg, &assets, false, 0), PatchAction::Spawn);
    frame.commit_spawn(root(0), 5, &mut reg);
    assert_eq!(frame.spawned(), 1);
    assert_eq!(frame.settle(root(1), &reg, &assets, false, 0), PatchAction::Defer);
    assert_eq!(frame.finish(), vec![root(1)]);
}
