use planet_surface::biome::{BiomeId, PatchBiomeStats, BIOME_COUNT};

const ALL: [BiomeId; 10] = [
    BiomeId::Ocean,
    BiomeId::Coast,
    BiomeId::Wetland,
    BiomeId::Grassland,
    BiomeId::Forest,
    BiomeId::Desert,
    BiomeId::Savannah,
    BiomeId::Mountain,
    BiomeId::Snow,
    BiomeId::Glacier,
];

#[test]
fn indices_round_trip() {
    for (i, b) in ALL.iter().enumerate() {
        assert_eq!(b.as_index(), i);
        assert_eq!(BiomeId::from_index(i), *b);
    }
    assert_eq!(BIOME_COUNT, 10);
}

#[test]
fn large_indices_read_as_glacier() {
    assert_eq!(BiomeId::from_index(10), BiomeId::Glacier);
    assert_eq!(BiomeId::from_index(usize::MAX), BiomeId::Glacier);
}

#[test]
fn tokens_and_names() {
    assert_eq!(BiomeId::Ocean.palette_token(), "palette:default");
    assert_eq!(BiomeId::Forest.palette_token(), "palette:lush");
    assert_eq!(BiomeId::Desert.palette_token(), "palette:desert");
    assert_eq!(BiomeId::Savannah.palette_token(), "palette:arid");
    assert_eq!(BiomeId::Glacier.palette_token(), "palette:ice");
    assert_eq!(BiomeId::Grassland.display_name(), "Grassland");
    assert_eq!(BiomeId::Glacier.display_name(), "Glacier");
}

#[test]
fn dominant_biome_is_most_frequent_with_last_index_on_ties() {
    let v = [BiomeId::Forest, BiomeId::Ocean, BiomeId::Forest, BiomeId::Snow, BiomeId::Snow];
    let stats = PatchBiomeStats::from_vertices(&v);
    assert_eq!(stats.counts[BiomeId::Forest.as_index()], 2);
    assert_eq!(stats.counts[BiomeId::Snow.as_index()], 2);
    assert_eq!(stats.counts[BiomeId::Ocean.as_index()], 1);
    assert_eq!(stats.dominant, BiomeId::Snow);
}

#[test]
fn empty_patch_reports_glacier() {
    let stats = PatchBiomeStats::from_vertices(&[]);
    assert_eq!(stats.counts, [0; 10]);
    assert_eq!(stats.dominant, BiomeId::Glacier);
}
