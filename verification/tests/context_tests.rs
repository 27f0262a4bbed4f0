use planet_surface::context::{
    max_new_requests, next_layer, update_planet_context, LayerReadings, PlanetContextLayer, PlanetContextState,
};
use planet_surface::key_set::PatchKeySet;
use planet_surface::patch_key::PatchKey;
use planet_surface::request_queue::PatchRequestQueue;
use planet_surface::context::PlanetContextLayer::{Approach, Orbit, Surface};

fn readings(wa: bool, ws: bool, ba: bool, bs: bool) -> LayerReadings {
    LayerReadings { within_approach: wa, within_surface: ws, beyond_approach_exit: ba, beyond_surface_exit: bs }
}

fn key(ix: u32) -> PatchKey {
    PatchKey { face: 1, level: 4, ix, iy: 2 }
}

#[test]
fn layers_step_through_approach() {
    assert_eq!(next_layer(Orbit, readings(true, true, false, false)), Approach);
    assert_eq!(next_layer(Orbit, readings(false, false, true, true)), Orbit);
    assert_eq!(next_layer(Approach, readings(true, true, false, false)), Surface);
    assert_eq!(next_layer(Approach, readings(false, false, true, true)), Orbit);
    assert_eq!(next_layer(Approach, readings(true, false, false, false)), Approach);
    assert_eq!(next_layer(Surface, readings(false, false, true, true)), Approach);
    assert_eq!(next_layer(Surface, readings(true, true, false, false)), Surface);
}

#[test]
fn hysteresis_keeps_layer_between_thresholds() {
    // Above the approach threshold but not past its exit margin.
    assert_eq!(next_layer(Approach, readings(false, false, false, false)), Approach);
    assert_eq!(next_layer(Surface, readings(false, false, false, false)), Surface);
}

#[test]
fn request_caps_per_layer() {
    assert_eq!(max_new_requests(PlanetContextLayer::Surface), 40);
    assert_eq!(max_new_requests(PlanetContextLayer::Approach), 24);
    assert_eq!(max_new_requests(PlanetContextLayer::Orbit), 0);
}

#[test]
fn fresh_context_is_in_orbit_with_nothing_wanted() {
    let ctx = PlanetContextState::new();
    assert_eq!(ctx.layer(), PlanetContextLayer::Orbit);
    assert_eq!(ctx.desired().len(), 0);
    assert_eq!(ctx.max_requested_level(), 0);
}

#[test]
fn approach_admits_at_most_its_cap_of_fresh_keys() {
    let mut ctx = PlanetContextState::new();
    let mut queue = PatchRequestQueue::new();
    let mut wanted = PatchKeySet::new();
    for i in 0..30u32 {
        wanted.insert(key(i));
    }
    update_planet_context(&mut ctx, &mut queue, PlanetContextLayer::Approach, &wanted, 4);
    assert_eq!(ctx.layer(), PlanetContextLayer::Approach);
    assert_eq!(ctx.desired().len(), 24);
    assert_eq!(queue.len(), 24);
    assert!(ctx.is_desired(&key(23)));
    assert!(!ctx.is_desired(&key(24)));
    assert_eq!(ctx.max_requested_level(), 4);

    // Next frame: the 24 known keys stay, and the remaining six are admitted.
    update_planet_context(&mut ctx, &mut queue, PlanetContextLayer::Approach, &wanted, 4);
    assert_eq!(ctx.desired().len(), 30);
    assert_eq!(queue.len(), 30);
}

#[test]
fn known_keys_survive_and_dropped_keys_leave_the_queue() {
    let mut ctx = PlanetContextState::new();
    let mut queue = PatchRequestQueue::new();
    let mut wanted = PatchKeySet::new();
    wanted.insert(key(0));
    wanted.insert(key(1));
    update_planet_context(&mut ctx, &mut queue, PlanetContextLayer::Surface, &wanted, 2);
    let mut next = PatchKeySet::new();
    next.insert(key(1));
    next.insert(key(7));
    update_planet_context(&mut ctx, &mut queue, PlanetContextLayer::Surface, &next, 3);
    assert_eq!(ctx.desired().keys(), &vec![key(1), key(7)]);
    assert_eq!(queue.pending(), &vec![key(1), key(7)]);
}

#[test]
fn orbit_forgets_everything() {
    let mut ctx = PlanetContextState::new();
    let mut queue = PatchRequestQueue::new();
    let mut wanted = PatchKeySet::new();
    wanted.insert(key(5));
    update_planet_context(&mut ctx, &mut queue, PlanetContextLayer::Surface, &wanted, 6);
    update_planet_context(&mut ctx, &mut queue, PlanetContextLayer::Orbit, &wanted, 6);
    assert_eq!(ctx.layer(), PlanetContextLayer::Orbit);
    assert_eq!(ctx.desired().len(), 0);
    assert_eq!(queue.len(), 0);
    assert_eq!(ctx.max_requested_level(), 0);
}

#[test]
fn layer_change_starts_admission_afresh() {
    let mut ctx = PlanetContextState::new();
    let mut queue = PatchRequestQueue::new();
    let mut wanted = PatchKeySet::new();
    for i in 0..30u32 {
        wanted.insert(key(i));
    }
    update_planet_context(&mut ctx, &mut queue, PlanetContextLayer::Surface, &wanted, 4);
    assert_eq!(ctx.desired().len(), 30);
    update_planet_context(&mut ctx, &mut queue, PlanetContextLayer::Approach, &wanted, 4);
    assert_eq!(ctx.desired().len(), 24);
    assert_eq!(queue.len(), 24);
}

#[test]
fn hysteresis_band_keeps_both_neighbouring_layers() {
    // Above the approach threshold but below its exit margin.
    let band = readings(false, false, false, true);
    assert_eq!(next_layer(Orbit, band), Orbit);
    assert_eq!(next_layer(Approach, band), Approach);
    // Above the surface threshold but below its exit margin.
    let low_band = readings(true, false, false, false);
    assert_eq!(next_layer(Approach, low_band), Approach);
    assert_eq!(next_layer(Surface, low_band), Surface);
}

#[test]
fn queued_keys_stay_wanted_and_few_are_new_per_frame() {
    let mut ctx = PlanetContextState::new();
    let mut queue = PatchRequestQueue::new();
    let mut wanted = PatchKeySet::new();
    for i in 0..60u32 {
        wanted.insert(key(i));
    }
    let mut frames: Vec<PatchKeySet> = Vec::new();
    frames.push(wanted);
    let mut shrunk = PatchKeySet::new();
    for i in 10..70u32 {
        shrunk.insert(key(i));
    }
    frames.push(shrunk);
    for set in frames.iter() {
        let before: Vec<PatchKey> = ctx.desired().keys().clone();
        update_planet_context(&mut ctx, &mut queue, PlanetContextLayer::Surface, set, 3);
        for k in queue.pending() {
            assert!(ctx.is_desired(k));
        }
        let new = ctx.desired().keys().iter().filter(|k| !before.contains(k)).count();
        assert!(new <= 40);
    }
}
