use planet_surface::context::PlanetContextLayer;
use planet_surface::lod_walk::{DesiredPatchWalk, PatchVerdict};
use planet_surface::patch_key::PatchKey;

fn root(face: u8) -> PatchKey {
    PatchKey { face, level: 0, ix: 0, iy: 0 }
}

#[test]
fn orbit_walk_wants_nothing() {
    let walk = DesiredPatchWalk::start(PlanetContextLayer::Orbit, 6);
    assert!(walk.is_done());
    let (desired, deepest) = walk.finish();
    assert_eq!(desired.len(), 0);
    assert_eq!(deepest, 0);
}

#[test]
fn surface_walk_starts_from_the_six_roots() {
    let walk = DesiredPatchWalk::start(PlanetContextLayer::Surface, 6);
    let expected: Vec<PatchKey> = (0..6u8).map(root).collect();
    assert_eq!(walk.frontier(), &expected);
}

#[test]
fn refining_one_root_visits_its_children() {
    let mut walk = DesiredPatchWalk::start(PlanetContextLayer::Approach, 3);
    let mut verdicts = vec![PatchVerdict::Culled; 6];
    verdicts[2] = PatchVerdict::Refine;
    verdicts[4] = PatchVerdict::Visible;
    walk.advance(&verdicts);
    assert_eq!(walk.frontier(), &root(2).children().to_vec());
    let next = vec![PatchVerdict::Visible, PatchVerdict::Culled, PatchVerdict::Visible, PatchVerdict::Culled];
    walk.advance(&next);
    assert!(walk.is_done());
    let (desired, deepest) = walk.finish();
    let kids = root(2).children();
    assert_eq!(desired.keys(), &vec![root(2), root(4), kids[0], kids[2]]);
    assert_eq!(deepest, 1);
}

#[test]
fn level_cap_stops_refinement() {
    let mut walk = DesiredPatchWalk::start(PlanetContextLayer::Surface, 0);
    walk.advance(&vec![PatchVerdict::Refine; 6]);
    assert!(walk.is_done());
    let (desired, deepest) = walk.finish();
    assert_eq!(desired.len(), 6);
    assert_eq!(deepest, 0);
}

#[test]
fn wanted_set_is_closed_under_parents() {
    let mut walk = DesiredPatchWalk::start(PlanetContextLayer::Surface, 4);
    while !walk.is_done() {
        let n = walk.frontier().len();
        let verdicts: Vec<PatchVerdict> = (0..n)
            .map(|i| if i % 3 == 0 { PatchVerdict::Refine } else if i % 3 == 1 { PatchVerdict::Visible } else { PatchVerdict::Culled })
            .collect();
        walk.advance(&verdicts);
    }
    let (desired, deepest) = walk.finish();
    let keys = desired.keys();
    assert!(keys.iter().any(|k| k.level == deepest));
    for k in keys {
        assert!(k.face < 6 && k.level <= 4);
        assert!(k.ix < (1u32 << k.level) && k.iy < (1u32 << k.level));
        if k.level > 0 {
            assert!(keys.contains(&k.parent().unwrap()));
        }
    }
}
