use planet_surface::patch_materials::{inherit_look, MaterialVariants, PatchLook, VariantChoice};
use planet_surface::hashing::hash_kind;
use planet_surface::patch_materials::{
    bundle_material_ids, classify_identifier, ensure_palette, filter_fix, gizmo_descriptor, palette_variant,
    texture_binding, texture_identifier_for, FilterFix, GizmoFamily, MaterialDirective, PaletteVariant, TexelFormat,
    TextureLoad, TextureSlot,
};

fn s(v: &[&str]) -> Vec<String> {
    v.iter().map(|x| x.to_string()).collect()
}

#[test]
fn a_default_palette_is_added_when_none_is_named() {
    let mut m = Vec::new();
    ensure_palette(&mut m);
    assert_eq!(m, s(&["palette:default"]));
    let mut m = s(&["detail:amp=0.1"]);
    ensure_palette(&mut m);
    assert_eq!(m, s(&["detail:amp=0.1", "palette:default"]));
    let mut m = s(&["detail:amp=0.1", "palette:lush"]);
    ensure_palette(&mut m);
    assert_eq!(m, s(&["detail:amp=0.1", "palette:lush"]));
}

#[test]
fn palette_names() {
    let p = |n: &str| palette_variant(&n.chars().collect());
    assert_eq!(p("default"), Some(PaletteVariant::Default));
    assert_eq!(p(""), Some(PaletteVariant::Default));
    assert_eq!(p("debug"), Some(PaletteVariant::Debug));
    assert_eq!(p("lush"), Some(PaletteVariant::Lush));
    assert_eq!(p("desert"), Some(PaletteVariant::Arid));
    assert_eq!(p("arid"), Some(PaletteVariant::Arid));
    assert_eq!(p("polar"), Some(PaletteVariant::Ice));
    assert_eq!(p("volcanic"), Some(PaletteVariant::Volcanic));
    assert_eq!(p("Lush"), None);
}

#[test]
fn identifiers_are_read_by_prefix() {
    assert_eq!(classify_identifier("palette:ice"), MaterialDirective::Palette(PaletteVariant::Ice));
    assert_eq!(classify_identifier("palette:"), MaterialDirective::Palette(PaletteVariant::Default));
    assert_eq!(classify_identifier("palette:neon"), MaterialDirective::UnknownPalette);
    assert_eq!(classify_identifier("detail:amp=0.25"), MaterialDirective::DetailAmp("0.25".to_string()));
    assert_eq!(classify_identifier("detail:scale=12"), MaterialDirective::DetailScale("12".to_string()));
    assert_eq!(classify_identifier("tex:albedo=a.png"), MaterialDirective::Other);
    assert_eq!(classify_identifier("palette:detail:amp=1"), MaterialDirective::UnknownPalette);
}

#[test]
fn bundle_identifiers_record_textures_after_the_palette() {
    let ids = bundle_material_ids(
        s(&["detail:scale=3"]),
        &Some("planet_patches/t/a.png".to_string()),
        &None,
        &Some("r.png".to_string()),
    );
    assert_eq!(
        ids,
        s(&["detail:scale=3", "palette:default", "tex:albedo=planet_patches/t/a.png", "tex:roughness=r.png"])
    );
    assert_eq!(texture_identifier_for(TextureSlot::Normal, "n.png"), "tex:normal=n.png");
}

#[test]
fn textures_bind_when_ready_and_are_forgotten_when_unusable() {
    let b = texture_binding(TextureLoad::Ready);
    assert!(b.bind && !b.forget);
    for load in [TextureLoad::Failed, TextureLoad::Unsupported] {
        let b = texture_binding(load);
        assert!(!b.bind && b.forget);
    }
    for load in [TextureLoad::Loading, TextureLoad::Pending] {
        let b = texture_binding(load);
        assert!(!b.bind && !b.forget);
    }
}

#[test]
fn integer_formats_become_normalized_or_unsupported() {
    assert_eq!(filter_fix(TexelFormat::Rg16Uint), FilterFix::Reinterpret(TexelFormat::Rg16Unorm));
    assert_eq!(filter_fix(TexelFormat::Rgba8Uint), FilterFix::Reinterpret(TexelFormat::Rgba8Unorm));
    assert_eq!(filter_fix(TexelFormat::OtherInteger), FilterFix::Unsupported);
    assert_eq!(filter_fix(TexelFormat::Rgba8Unorm), FilterFix::Keep);
    assert_eq!(filter_fix(TexelFormat::Other), FilterFix::Keep);
}

#[test]
fn gizmos_by_prop_kind() {
    let g = gizmo_descriptor("Pine_Tree");
    assert_eq!((g.family, g.key.as_str(), g.use_cylinder), (GizmoFamily::Foliage, "cat:foliage", false));
    let g = gizmo_descriptor("RadioANTENNA");
    assert_eq!((g.family, g.key.as_str(), g.use_cylinder), (GizmoFamily::Structure, "cat:structure", true));
    let g = gizmo_descriptor("Crystal");
    assert_eq!((g.family, g.key.as_str(), g.use_cylinder), (GizmoFamily::Custom, "Crystal", false));
    assert_eq!(g.color_hash, hash_kind("Crystal".as_bytes()));
    assert_eq!(g.color_hash, 112414825);
    // Foliage words win over structure words.
    assert_eq!(gizmo_descriptor("tree_base").family, GizmoFamily::Foliage);
}

#[test]
fn incomplete_looks_inherit_from_the_parent() {
    let parent = PatchLook {
        materials: s(&["palette:lush"]),
        albedo: Some("p_albedo.png".to_string()),
        normal: Some("p_normal.png".to_string()),
        roughness: None,
    };
    let own = PatchLook { materials: Vec::new(), albedo: Some("own.png".to_string()), normal: None, roughness: None };
    let r = inherit_look(own, Some(&parent));
    assert_eq!(r.materials, s(&["palette:lush"]));
    assert_eq!(r.albedo.as_deref(), Some("own.png"));
    assert_eq!(r.normal.as_deref(), Some("p_normal.png"));
    assert_eq!(r.roughness, None);

    let complete = PatchLook {
        materials: s(&["palette:ice"]),
        albedo: Some("a".to_string()),
        normal: Some("n".to_string()),
        roughness: Some("r".to_string()),
    };
    let r = inherit_look(complete.clone(), Some(&parent));
    assert_eq!(r.materials, complete.materials);
    assert_eq!(r.roughness.as_deref(), Some("r"));

    let orphan = PatchLook { materials: Vec::new(), albedo: None, normal: None, roughness: None };
    let r = inherit_look(orphan, None);
    assert!(r.materials.is_empty() && r.albedo.is_none());
}

#[test]
fn material_variants_are_built_once_and_reused() {
    let mut v = MaterialVariants::new();
    let ids = vec!["palette:lush".to_string(), "detail:amp=0.2".to_string()];
    assert_eq!(v.choice(&Vec::new(), true), VariantChoice::Base);
    assert_eq!(v.choice(&ids, false), VariantChoice::Base);
    assert_eq!(v.choice(&ids, true), VariantChoice::Build);
    assert_eq!(v.finish_build(&ids, true, 7), VariantChoice::Cached(7));
    assert_eq!(v.choice(&ids, true), VariantChoice::Cached(7));
    assert_eq!(v.variant_for(&ids), Some(7));
    let other = vec!["unknown".to_string()];
    assert_eq!(v.choice(&other, true), VariantChoice::Build);
    assert_eq!(v.finish_build(&other, false, 8), VariantChoice::Base);
    assert_eq!(v.variant_for(&other), None);
    assert_eq!(v.handles(), &vec![7]);
}
