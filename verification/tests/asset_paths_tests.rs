use planet_surface::asset_paths::{join_root, normalize_asset_path, JoinRoot, PathPart};

const BASE: &str = "assets/planet_patches";
const DIR: &str = "assets/planet_patches/face_0";

#[test]
fn asset_root_prefixes_are_removed() {
    assert_eq!(normalize_asset_path(BASE, DIR, "assets/planet_patches/x.png"), "planet_patches/x.png");
    assert_eq!(normalize_asset_path(BASE, DIR, "assets\\assets/tex.png"), "tex.png");
}

#[test]
fn patch_paths_are_kept() {
    assert_eq!(normalize_asset_path(BASE, DIR, "planet_patches\\face_1\\a.png"), "planet_patches/face_1/a.png");
}

#[test]
fn relative_paths_resolve_against_the_descriptor() {
    assert_eq!(normalize_asset_path(BASE, DIR, "textures/a.png"), "planet_patches/face_0/textures/a.png");
    assert_eq!(normalize_asset_path(BASE, DIR, "face_0/b.png"), "planet_patches/face_0/b.png");
    assert_eq!(normalize_asset_path(BASE, DIR, "/abs/c.png"), "/abs/c.png");
}

#[test]
fn join_root_follows_the_first_component() {
    let dir = Some("face_0".to_string());
    assert_eq!(join_root(false, &Some(PathPart::Normal("face_0".to_string())), &dir), None);
    assert_eq!(join_root(true, &Some(PathPart::Normal("face_0".to_string())), &dir), Some(JoinRoot::PatchRoot));
    assert_eq!(join_root(true, &Some(PathPart::Normal("face_1".to_string())), &dir), Some(JoinRoot::DescriptorDir));
    assert_eq!(join_root(true, &Some(PathPart::CurDir), &dir), Some(JoinRoot::DescriptorDir));
    assert_eq!(join_root(true, &None, &None), Some(JoinRoot::DescriptorDir));
}

#[test]
fn paths_naming_the_descriptor_directory_are_not_doubled() {
    let base = "data/root";
    let dir = "data/root/face_0";
    assert_eq!(normalize_asset_path(base, dir, "face_0/b.png"), "data/root/face_0/b.png");
    assert_eq!(normalize_asset_path(base, dir, "b.png"), "data/root/face_0/b.png");
    assert_eq!(normalize_asset_path(base, dir, "face_1/b.png"), "data/root/face_0/face_1/b.png");
}
