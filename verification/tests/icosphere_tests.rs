use planet_surface::icosphere::{generate_icosphere, CORNERS};

#[test]
fn icosahedron_has_twenty_faces_and_no_midpoints() {
    let t = generate_icosphere(0);
    assert_eq!(t.faces.len(), 20);
    assert!(t.midpoints.is_empty());
    assert_eq!(t.faces[0], (0, 11, 5));
    assert_eq!(t.faces[19], (9, 8, 1));
}

#[test]
fn one_subdivision_splits_each_of_the_thirty_edges_once() {
    let t = generate_icosphere(1);
    assert_eq!(t.faces.len(), 80);
    assert_eq!(t.midpoints.len(), 30);
    // The first face (0, 11, 5) creates midpoints 12, 13, 14 for its edges.
    assert_eq!(t.midpoints[0], (0, 11));
    assert_eq!(t.midpoints[1], (5, 11));
    assert_eq!(t.midpoints[2], (0, 5));
    assert_eq!(t.faces[0], (0, 12, 14));
    assert_eq!(t.faces[1], (11, 13, 12));
    assert_eq!(t.faces[2], (5, 14, 13));
    assert_eq!(t.faces[3], (12, 13, 14));
    // The second face (0, 5, 1) reuses the midpoint of edge 0-5.
    assert_eq!(t.midpoints[3], (1, 5));
    assert_eq!(t.midpoints[4], (0, 1));
    assert_eq!(t.faces[4], (0, 14, 16));
}

#[test]
fn vertex_counts_follow_the_subdivision_formula() {
    for s in 0..5u32 {
        let t = generate_icosphere(s);
        let vertices = CORNERS as usize + t.midpoints.len();
        assert_eq!(t.faces.len(), 20 * 4usize.pow(s));
        assert_eq!(vertices, 10 * 4usize.pow(s) + 2);
        for &(a, b, c) in &t.faces {
            assert!((a as usize) < vertices && (b as usize) < vertices && (c as usize) < vertices);
        }
        for (k, &(lo, hi)) in t.midpoints.iter().enumerate() {
            assert!(lo <= hi && (hi as usize) < CORNERS as usize + k);
        }
    }
}
