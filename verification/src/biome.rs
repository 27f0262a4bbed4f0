//! Stable biome identifiers and per-patch biome tallies.
use vstd::prelude::*;

verus! {

/// Fixed palette of biome identifiers; the index of each is stable.
#[derive(Clone, Copy, Debug, PartialEq, Eq, Hash, Structural)]
pub enum BiomeId {
    Ocean,
    Coast,
    Wetland,
    Grassland,
    Forest,
    Desert,
    Savannah,
    Mountain,
    Snow,
    Glacier,
}

/// Number of biome identifiers.
pub const BIOME_COUNT: usize = 10;

/// Stable index of a biome.
pub open spec fn biome_index(b: BiomeId) -> nat {
    match b {
        BiomeId::Ocean => 0,
        BiomeId::Coast => 1,
        BiomeId::Wetland => 2,
        BiomeId::Grassland => 3,
        BiomeId::Forest => 4,
        BiomeId::Desert => 5,
        BiomeId::Savannah => 6,
        BiomeId::Mountain => 7,
        BiomeId::Snow => 8,
        BiomeId::Glacier => 9,
    }
}

/// Biome with index `i`; every index from 9 on maps to `Glacier`.
pub open spec fn biome_at_index(i: nat) -> BiomeId {
    if i == 0 {
        BiomeId::Ocean
    } else if i == 1 {
        BiomeId::Coast
    } else if i == 2 {
        BiomeId::Wetland
    } else if i == 3 {
        BiomeId::Grassland
    } else if i == 4 {
        BiomeId::Forest
    } else if i == 5 {
        BiomeId::Desert
    } else if i == 6 {
        BiomeId::Savannah
    } else if i == 7 {
        BiomeId::Mountain
    } else if i == 8 {
        BiomeId::Snow
    } else {
        BiomeId::Glacier
    }
}

impl BiomeId {
    /// Stable index in `0..10`.
    pub fn as_index(self) -> (r: usize)
        ensures
            r == biome_index(self),
            r < BIOME_COUNT,
    {
        match self {
            BiomeId::Ocean => 0,
            BiomeId::Coast => 1,
            BiomeId::Wetland => 2,
            BiomeId::Grassland => 3,
            BiomeId::Forest => 4,
            BiomeId::Desert => 5,
            BiomeId::Savannah => 6,
            BiomeId::Mountain => 7,
            BiomeId::Snow => 8,
            BiomeId::Glacier => 9,
        }
    }

    /// Biome for an index; indices past the last map to `Glacier`.
    pub fn from_index(index: usize) -> (r: BiomeId)
        ensures
            r == biome_at_index(index as nat),
    {
        match index {
            0 => BiomeId::Ocean,
            1 => BiomeId::Coast,
            2 => BiomeId::Wetland,
            3 => BiomeId::Grassland,
            4 => BiomeId::Forest,
            5 => BiomeId::Desert,
            6 => BiomeId::Savannah,
            7 => BiomeId::Mountain,
            8 => BiomeId::Snow,
            _ => BiomeId::Glacier,
        }
    }

    /// Material palette identifier used for patches of this biome.
    pub fn palette_token(self) -> (r: &'static str)
        ensures
            r@ == palette_token_spec(self),
    {
        match self {
            BiomeId::Ocean => "palette:default",
            BiomeId::Coast => "palette:default",
            BiomeId::Wetland => "palette:lush",
            BiomeId::Grassland => "palette:lush",
            BiomeId::Forest => "palette:lush",
            BiomeId::Desert => "palette:desert",
            BiomeId::Savannah => "palette:arid",
            BiomeId::Mountain => "palette:default",
            BiomeId::Snow => "palette:ice",
            BiomeId::Glacier => "palette:ice",
        }
    }

    /// Human-readable name.
    pub fn display_name(self) -> (r: &'static str)
        ensures
            r@ == display_name_spec(self),
    {
        match self {
            BiomeId::Ocean => "Ocean",
            BiomeId::Coast => "Coast",
            BiomeId::Wetland => "Wetland",
            BiomeId::Grassland => "Grassland",
            BiomeId::Forest => "Forest",
            BiomeId::Desert => "Desert",
            BiomeId::Savannah => "Savannah",
            BiomeId::Mountain => "Mountain",
            BiomeId::Snow => "Snow",
            BiomeId::Glacier => "Glacier",
        }
    }
}

/// Palette identifier of a biome.
pub open spec fn palette_token_spec(b: BiomeId) -> Seq<char> {
    match b {
        BiomeId::Ocean | BiomeId::Coast | BiomeId::Mountain => "palette:default"@,
        BiomeId::Wetland | BiomeId::Grassland | BiomeId::Forest => "palette:lush"@,
        BiomeId::Desert => "palette:desert"@,
        BiomeId::Savannah => "palette:arid"@,
        BiomeId::Snow | BiomeId::Glacier => "palette:ice"@,
    }
}

/// Display name of a biome.
pub open spec fn display_name_spec(b: BiomeId) -> Seq<char> {
    match b {
        BiomeId::Ocean => "Ocean"@,
        BiomeId::Coast => "Coast"@,
        BiomeId::Wetland => "Wetland"@,
        BiomeId::Grassland => "Grassland"@,
        BiomeId::Forest => "Forest"@,
        BiomeId::Desert => "Desert"@,
        BiomeId::Savannah => "Savannah"@,
        BiomeId::Mountain => "Mountain"@,
        BiomeId::Snow => "Snow"@,
        BiomeId::Glacier => "Glacier"@,
    }
}

/// The index of a biome maps back to the biome.
pub proof fn lemma_index_roundtrip(b: BiomeId)
    ensures
        biome_at_index(biome_index(b)) == b,
        biome_index(b) < BIOME_COUNT,
{
}

/// Occurrences of `b` in `vs`.
pub open spec fn occurrences(vs: Seq<BiomeId>, b: BiomeId) -> nat
    decreases vs.len(),
{
    if vs.len() == 0 {
        0
    } else {
        occurrences(vs.drop_last(), b) + if vs.last() == b {
            1nat
        } else {
            0nat
        }
    }
}

/// `n` capped at `u32::MAX`.
pub open spec fn capped(n: nat) -> u32 {
    if n > u32::MAX {
        u32::MAX
    } else {
        n as u32
    }
}

/// `d` is the last index holding the largest count.
pub open spec fn is_last_max(counts: Seq<u32>, d: int) -> bool {
    &&& 0 <= d < counts.len()
    &&& forall|j: int| 0 <= j < counts.len() ==> #[trigger] counts[j] <= counts[d]
    &&& forall|j: int| d < j < counts.len() ==> #[trigger] counts[j] < counts[d]
}

/// Biome tallies of a patch's vertices.
#[derive(Clone, Copy, Debug)]
pub struct PatchBiomeStats {
    /// Vertices per biome index (saturating).
    pub counts: [u32; 10],
    /// The most frequent biome; the highest index wins a tie.
    pub dominant: BiomeId,
}

impl PatchBiomeStats {
    /// Counts the biomes of `vertices` and picks the dominant one.
    pub fn from_vertices(vertices: &[BiomeId]) -> (r: PatchBiomeStats)
        ensures
            forall|i: int| 0 <= i < 10 ==> #[trigger] r.counts@[i] == capped(occurrences(vertices@, biome_at_index(i as nat))),
            exists|d: int| is_last_max(r.counts@, d) && r.dominant == biome_at_index(d as nat),
    {
        let mut counts: [u32; 10] = [0u32; 10];
        let n = vertices.len();
        for v in 0..n
            invariant
                n == vertices@.len(),
                counts@.len() == 10,
                forall|i: int| 0 <= i < 10 ==> #[trigger] counts@[i] == capped(occurrences(vertices@.take(v as int), biome_at_index(i as nat))),
        {
            let b = vertices[v];
            let idx = b.as_index();
            let c = counts[idx];
            let bumped = c.saturating_add(1);
            counts[idx] = bumped;
            proof {
                let pre = vertices@.take(v as int);
                let cur = vertices@.take(v + 1);
                assert(cur.drop_last() =~= pre);
                assert(cur.last() == b);
                lemma_index_roundtrip(b);
                assert forall|i: int| 0 <= i < 10 implies #[trigger] counts@[i] == capped(occurrences(cur, biome_at_index(i as nat))) by {
                    if i == idx as int {
                        assert(biome_at_index(i as nat) == b);
                    } else {
                        assert(biome_at_index(i as nat) != b) by {
                            if biome_at_index(i as nat) == b {
                                assert(biome_index(biome_at_index(i as nat)) == i);
                            }
                        }
                    }
                }
            }
        }
        assert(vertices@.take(n as int) =~= vertices@);
        let mut best: usize = 0;
        let mut i: usize = 1;
        while i < 10
            invariant
                counts@.len() == 10,
                1 <= i <= 10,
                best < i,
                forall|j: int| 0 <= j < i ==> #[trigger] counts@[j] <= counts@[best as int],
                forall|j: int| best < j < i ==> #[trigger] counts@[j] < counts@[best as int],
            decreases 10 - i,
        {
            if counts[i] >= counts[best] {
                best = i;
            }
            i += 1;
        }
        let r = PatchBiomeStats { counts, dominant: BiomeId::from_index(best) };
        assert(is_last_max(r.counts@, best as int));
        r
    }
}

} // verus!
