use planet_surface::mesh_topology::{patch_grid_indices, patch_skirt, terrain_grid_indices, verts_per_side};

#[test]
fn vertices_per_side_by_level() {
    let expected = [10, 13, 16, 19, 22, 24, 24, 24];
    for (level, n) in expected.iter().enumerate() {
        assert_eq!(verts_per_side(level as u8), *n);
    }
    assert_eq!(verts_per_side(255), 24);
}

#[test]
fn patch_grid_of_three_by_three() {
    let idx = patch_grid_indices(3);
    assert_eq!(
        idx,
        vec![
            0, 1, 3, 1, 4, 3, // cell (0, 0)
            1, 2, 4, 2, 5, 4, // cell (0, 1)
            3, 4, 6, 4, 7, 6, // cell (1, 0)
            4, 5, 7, 5, 8, 7, // cell (1, 1)
        ]
    );
}

#[test]
fn terrain_grid_uses_the_other_winding() {
    let idx = terrain_grid_indices(2, 1);
    assert_eq!(idx, vec![0, 3, 1, 1, 3, 4, 1, 4, 2, 2, 4, 5]);
    assert!(terrain_grid_indices(0, 5).is_empty());
}

#[test]
fn grid_indices_stay_inside_the_grid() {
    for verts in 2..12u32 {
        let idx = patch_grid_indices(verts);
        assert_eq!(idx.len() as u32, (verts - 1) * (verts - 1) * 6);
        assert!(idx.iter().all(|&i| i < verts * verts));
    }
}

#[test]
fn skirt_of_a_three_by_three_patch() {
    let skirt = patch_skirt(3);
    // Every vertex but the centre is on the outline, in row-major order.
    assert_eq!(skirt.sources, vec![0, 1, 2, 3, 5, 6, 7, 8]);
    // Outline vertex k gets skirt vertex 9 + k.
    let s = |grid: u32| 9 + skirt.sources.iter().position(|&g| g == grid).unwrap() as u32;
    let quad = |a: u32, b: u32| vec![a, b, s(a), s(a), b, s(b)];
    let mut expected = Vec::new();
    for i in 0..2u32 {
        expected.extend(quad(i, i + 1));
        expected.extend(quad(6 + i, 7 + i));
        expected.extend(quad(3 * i, 3 * (i + 1)));
        expected.extend(quad(3 * i + 2, 3 * (i + 1) + 2));
    }
    assert_eq!(skirt.indices, expected);
}

#[test]
fn skirt_sizes_and_ranges() {
    for verts in 2..30u32 {
        let skirt = patch_skirt(verts);
        assert_eq!(skirt.sources.len() as u32, 4 * (verts - 1));
        assert_eq!(skirt.indices.len() as u32, 24 * (verts - 1));
        let total = verts * verts + 4 * (verts - 1);
        assert!(skirt.indices.iter().all(|&i| i < total));
        assert!(skirt.sources.windows(2).all(|w| w[0] < w[1]));
    }
}

#[test]
fn every_index_names_a_vertex() {
    for verts in 2..12u32 {
        assert!(patch_grid_indices(verts).iter().all(|&i| i < verts * verts));
        let skirt = patch_skirt(verts);
        assert!(skirt.indices.iter().all(|&i| i < verts * verts + 4 * (verts - 1)));
        assert!(skirt.sources.iter().all(|&i| i < verts * verts));
    }
    assert!(terrain_grid_indices(5, 3).iter().all(|&i| i < 6 * 4));
}
