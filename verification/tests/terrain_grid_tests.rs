use planet_surface::terrain_grid::{
    idx, next_cell, streaming_diff, wanted_patch_ids, CubeFace, GlobalBiomeMap, PatchId, SurfaceBiomes,
};

fn pid(gx: i32, gy: i32) -> PatchId {
    PatchId { gx, gy }
}

#[test]
fn wanted_tiles_cover_the_square_row_by_row() {
    let ids = wanted_patch_ids(10, -4, 1);
    assert_eq!(
        ids,
        vec![
            pid(9, -5),
            pid(10, -5),
            pid(11, -5),
            pid(9, -4),
            pid(10, -4),
            pid(11, -4),
            pid(9, -3),
            pid(10, -3),
            pid(11, -3)
        ]
    );
    assert_eq!(wanted_patch_ids(0, 0, 0), vec![pid(0, 0)]);
    assert_eq!(wanted_patch_ids(0, 0, 3).len(), 49);
}

#[test]
fn negative_radius_wants_nothing() {
    assert!(wanted_patch_ids(3, 3, -1).is_empty());
}

#[test]
fn streaming_diff_spawns_new_and_despawns_stale() {
    let wanted = vec![pid(0, 0), pid(1, 0), pid(2, 0)];
    let existing = vec![(7, pid(1, 0)), (8, pid(5, 5)), (9, pid(6, 6))];
    let (spawn, despawn) = streaming_diff(&wanted, &existing);
    assert_eq!(spawn, vec![pid(0, 0), pid(2, 0)]);
    assert_eq!(despawn, vec![8, 9]);
}

#[test]
fn streaming_diff_of_equal_sets_does_nothing() {
    let wanted = vec![pid(4, 4)];
    let existing = vec![(1, pid(4, 4))];
    let (spawn, despawn) = streaming_diff(&wanted, &existing);
    assert!(spawn.is_empty() && despawn.is_empty());
}

#[test]
fn cube_faces_are_indexed_in_order() {
    for (i, f) in CubeFace::all().iter().enumerate() {
        assert_eq!(f.as_index(), i);
    }
    assert_eq!(CubeFace::NegativeY.as_index(), 3);
}

#[test]
fn biome_map_reads_row_major_texels() {
    let face = |v: u8| vec![v, v + 1, v + 2, v + 3];
    let map = GlobalBiomeMap { resolution: 2, faces: [face(0), face(10), face(20), face(30), face(40), face(50)] };
    assert_eq!(map.texel_index(1, 1), 3);
    assert_eq!(map.biome_at_texel(2, 1, 0), 21);
    assert_eq!(map.biome_at_texel(9, 0, 1), 52);
    assert_eq!(map.biome_at_texel(0, 5, 5), 0);
    assert_eq!(map.texels_for_face(CubeFace::PositiveZ), &face(40));
    let empty = GlobalBiomeMap { resolution: 0, faces: [vec![], vec![], vec![], vec![], vec![], vec![]] };
    assert_eq!(empty.biome_at_texel(0, 0, 0), 0);
    assert_eq!(idx(4, 3, 2), 11);
}

#[test]
fn surface_biomes_and_neighbour_cells() {
    let grid = SurfaceBiomes { resolution: 2, biomes: [vec![1, 2, 3, 4], vec![], vec![], vec![], vec![], vec![9; 4]] };
    assert_eq!(grid.biome_at(0, 1, 1), 4);
    assert_eq!(grid.biome_at(5, 0, 1), 9);
    assert_eq!(next_cell(4, 1), 2);
    assert_eq!(next_cell(4, 3), 3);
    assert_eq!(next_cell(1, 0), 0);
}
