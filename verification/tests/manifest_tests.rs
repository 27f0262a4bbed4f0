use planet_surface::manifest::{
    id_less, page_from_scan, parse_face_dir, parse_lod_dir, PageResidency, PatchTextureFile, PatchTextureSemantic,
    PlanetPatchCache, PlanetPatchId, PlanetPatchManifest, PlanetPatchPageMeta,
};

fn page(face: u8, lod: u8, x: u8, y: u8, path: &str) -> PlanetPatchPageMeta {
    PlanetPatchPageMeta {
        id: PlanetPatchId::new(face, lod, x, y),
        textures: vec![PatchTextureFile { semantic: PatchTextureSemantic::Albedo, asset_path: path.to_string() }],
    }
}

#[test]
fn face_directories_parse_case_insensitively() {
    assert_eq!(parse_face_dir("face_3"), Some(3));
    assert_eq!(parse_face_dir("FACE_03"), Some(3));
    assert_eq!(parse_face_dir("face_+7"), Some(7));
    assert_eq!(parse_face_dir("face_"), None);
    assert_eq!(parse_face_dir("face_256"), None);
    assert_eq!(parse_face_dir("side_1"), None);
}

#[test]
fn lod_directories_parse_three_numbers() {
    assert_eq!(parse_lod_dir("lod2_1_3"), Some((2, 1, 3)));
    assert_eq!(parse_lod_dir("LOD10_4_5_extra"), Some((10, 4, 5)));
    assert_eq!(parse_lod_dir("lod2_1"), None);
    assert_eq!(parse_lod_dir("lod_1_2"), None);
    assert_eq!(parse_lod_dir("lodx_1_2"), None);
    assert_eq!(parse_lod_dir("level2_1_3"), None);
}

#[test]
fn texture_semantics_follow_keyword_groups() {
    assert_eq!(PatchTextureSemantic::from_filename("Rock_BaseColor.png"), PatchTextureSemantic::Albedo);
    assert_eq!(PatchTextureSemantic::from_filename("rock_normal.png"), PatchTextureSemantic::Normal);
    assert_eq!(PatchTextureSemantic::from_filename("MASK.png"), PatchTextureSemantic::Material);
    assert_eq!(PatchTextureSemantic::from_filename("rock_roughness.png"), PatchTextureSemantic::Roughness);
    assert_eq!(PatchTextureSemantic::from_filename("preview.png"), PatchTextureSemantic::Other);
    // The first group wins when several keywords occur.
    assert_eq!(PatchTextureSemantic::from_filename("albedo_normal.png"), PatchTextureSemantic::Albedo);
}

#[test]
fn scanned_page_uses_forward_slashes() {
    let files = vec![
        ("Albedo.png".to_string(), "planet_patches\\face_1\\lod2_0_1\\textures\\Albedo.png".to_string()),
        ("n.png".to_string(), "planet_patches/face_1/lod2_0_1/textures/n.png".to_string()),
    ];
    let page = page_from_scan("face_1", "lod2_0_1", &files).unwrap();
    assert_eq!(page.id, PlanetPatchId::new(1, 2, 0, 1));
    assert_eq!(page.textures.len(), 2);
    assert_eq!(page.textures[0].semantic, PatchTextureSemantic::Albedo);
    assert_eq!(page.textures[0].asset_path, "planet_patches/face_1/lod2_0_1/textures/Albedo.png");
    assert_eq!(page.textures[1].semantic, PatchTextureSemantic::Other);
}

#[test]
fn scan_without_textures_or_bad_names_gives_nothing() {
    assert!(page_from_scan("face_1", "lod2_0_1", &Vec::new()).is_none());
    let files = vec![("a.png".to_string(), "a.png".to_string())];
    assert!(page_from_scan("face_x", "lod2_0_1", &files).is_none());
    assert!(page_from_scan("face_1", "lod2_0", &files).is_none());
}

#[test]
fn manifest_sorts_pages_stably() {
    let pages = vec![
        page(2, 0, 0, 0, "c"),
        page(0, 1, 0, 0, "b"),
        page(0, 0, 1, 0, "a1"),
        page(0, 0, 1, 0, "a2"),
    ];
    let m = PlanetPatchManifest::from_pages("root".to_string(), pages);
    let paths: Vec<&str> = m.pages.iter().map(|p| p.textures[0].asset_path.as_str()).collect();
    assert_eq!(paths, vec!["a1", "a2", "b", "c"]);
    assert_eq!(m.page_count(), 4);
    assert_eq!(m.page(&PlanetPatchId::new(0, 0, 1, 0)).unwrap().textures[0].asset_path, "a1");
    assert!(m.page(&PlanetPatchId::new(9, 0, 0, 0)).is_none());
    assert_eq!(m.pages_for_face(0).len(), 3);
    assert_eq!(m.root, "root");
}

#[test]
fn id_order_is_lexicographic() {
    assert!(id_less(&PlanetPatchId::new(0, 9, 9, 9), &PlanetPatchId::new(1, 0, 0, 0)));
    assert!(id_less(&PlanetPatchId::new(1, 0, 0, 1), &PlanetPatchId::new(1, 0, 1, 0)));
    assert!(!id_less(&PlanetPatchId::new(1, 0, 1, 0), &PlanetPatchId::new(1, 0, 1, 0)));
    assert_eq!(
        id_less(&PlanetPatchId::new(3, 1, 2, 0), &PlanetPatchId::new(3, 1, 0, 5)),
        PlanetPatchId::new(3, 1, 2, 0) < PlanetPatchId::new(3, 1, 0, 5)
    );
}

#[test]
fn cache_makes_pages_resident_once() {
    let m = PlanetPatchManifest::from_pages(
        "root".to_string(),
        vec![page(0, 0, 0, 0, "a"), page(1, 0, 0, 0, "b"), page(1, 1, 0, 0, "c")],
    );
    let mut cache = PlanetPatchCache::new(m);
    assert_eq!(cache.ensure_page(PlanetPatchId::new(0, 0, 0, 0)), PageResidency::NewlyResident);
    assert_eq!(cache.ensure_page(PlanetPatchId::new(0, 0, 0, 0)), PageResidency::Resident);
    assert_eq!(cache.ensure_page(PlanetPatchId::new(5, 0, 0, 0)), PageResidency::NotInManifest);
    assert_eq!(cache.resident_count(), 1);
    let fresh = cache.preload_face(1);
    assert_eq!(fresh, vec![PlanetPatchId::new(1, 0, 0, 0), PlanetPatchId::new(1, 1, 0, 0)]);
    assert!(cache.preload_face(1).is_empty());
    assert!(cache.is_resident(&PlanetPatchId::new(1, 1, 0, 0)));
    assert_eq!(cache.resident_count(), 3);
    assert_eq!(cache.manifest().page_count(), 3);
}
