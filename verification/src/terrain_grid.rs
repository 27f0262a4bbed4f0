//! Integer layout of the flat terrain grid and of the per-face biome maps.
use vstd::prelude::*;

verus! {

/// A square tile of the flat terrain, by grid cell.
#[derive(Clone, Copy, Debug, PartialEq, Eq, Hash, Structural)]
pub struct PatchId {
    pub gx: i32,
    pub gy: i32,
}

/// The tile in row `row`, column `col` of the square of half-width `radius` around `(gx, gy)`.
pub open spec fn tile_at(gx: i32, gy: i32, radius: i32, row: int, col: int) -> PatchId {
    PatchId { gx: (gx - radius + col) as i32, gy: (gy - radius + row) as i32 }
}

/// The tiles within `radius` cells of `(gx, gy)` in both axes, row by row
/// (rows by increasing y, tiles in a row by increasing x).  A negative radius
/// wants nothing.
pub fn wanted_patch_ids(gx: i32, gy: i32, radius: i32) -> (r: Vec<PatchId>)
    requires
        radius > i32::MIN,
        radius < i32::MAX,
        radius >= 0 ==> gx - radius >= i32::MIN && gx + radius <= i32::MAX && gy - radius >= i32::MIN && gy
            + radius <= i32::MAX,
    ensures
        radius < 0 ==> r@.len() == 0,
        radius >= 0 ==> r@.len() == (2 * radius + 1) * (2 * radius + 1),
        radius >= 0 ==> forall|row: int, col: int|
            0 <= row < 2 * radius + 1 && 0 <= col < 2 * radius + 1 ==> #[trigger] r@[row * (2 * radius + 1) + col]
                == tile_at(gx, gy, radius, row, col),
{
    let mut out: Vec<PatchId> = Vec::new();
    if radius < 0 {
        return out;
    }
    let ghost w: int = 2 * radius + 1;
    let mut dy: i32 = -radius;
    assert((dy + radius) * w == 0) by (nonlinear_arith)
        requires
            dy + radius == 0,
    ;
    while dy <= radius
        invariant
            0 <= radius < i32::MAX,
            w == 2 * radius + 1,
            -radius <= dy <= radius + 1,
            gx - radius >= i32::MIN && gx + radius <= i32::MAX && gy - radius >= i32::MIN && gy + radius <= i32::MAX,
            out@.len() == (dy + radius) * w,
            forall|row: int, col: int|
                0 <= row < dy + radius && 0 <= col < w ==> #[trigger] out@[row * w + col] == tile_at(gx, gy, radius, row, col),
        decreases radius - dy + 1,
    {
        let mut dx: i32 = -radius;
        let ghost row: int = dy + radius;
        while dx <= radius
            invariant
                0 <= radius < i32::MAX,
                w == 2 * radius + 1,
                row == dy + radius,
                -radius <= dy <= radius,
                -radius <= dx <= radius + 1,
                gx - radius >= i32::MIN && gx + radius <= i32::MAX && gy - radius >= i32::MIN && gy + radius <= i32::MAX,
                out@.len() == row * w + (dx + radius),
                forall|r2: int, col: int|
                    0 <= r2 < row && 0 <= col < w ==> #[trigger] out@[r2 * w + col] == tile_at(gx, gy, radius, r2, col),
                forall|col: int| 0 <= col < dx + radius ==> #[trigger] out@[row * w + col] == tile_at(gx, gy, radius, row, col),
            decreases radius - dx + 1,
        {
            let ghost before = out@;
            out.push(PatchId { gx: gx + dx, gy: gy + dy });
            proof {
                let col = dx + radius;
                assert(out@[row * w + col] == tile_at(gx, gy, radius, row, col));
                assert forall|r2: int, c: int| 0 <= r2 < row && 0 <= c < w implies #[trigger] out@[r2 * w + c] == tile_at(gx, gy, radius, r2, c) by {
                    assert(r2 * w + c < row * w) by (nonlinear_arith)
                        requires
                            0 <= r2 < row,
                            0 <= c < w,
                    ;
                    assert(out@[r2 * w + c] == before[r2 * w + c]);
                }
            }
            dx += 1;
        }
        proof {
            assert forall|r2: int, col: int| 0 <= r2 < row + 1 && 0 <= col < w implies #[trigger] out@[r2 * w + col] == tile_at(gx, gy, radius, r2, col) by {
            }
            assert(out@.len() == (row + 1) * w) by (nonlinear_arith)
                requires
                    out@.len() == row * w + w,
            ;
        }
        dy += 1;
    }
    out
}

/// Whether `id` is among `ids`.
fn has_id(ids: &Vec<PatchId>, id: &PatchId) -> (r: bool)
    ensures
        r == ids@.contains(*id),
{
    let n = ids.len();
    for i in 0..n
        invariant
            n == ids@.len(),
            forall|j: int| 0 <= j < i ==> ids@[j] != *id,
    {
        if ids[i] == *id {
            assert(ids@[i as int] == *id);
            return true;
        }
    }
    false
}

/// Tiles to spawn (wanted, not present; in wanted order) and entities to
/// despawn (present, no longer wanted; in presence order).
pub fn streaming_diff(wanted: &Vec<PatchId>, existing: &Vec<(u64, PatchId)>) -> (r: (Vec<PatchId>, Vec<u64>))
    ensures
        r.0@ == wanted@.filter(|id: PatchId| !existing@.map_values(|e: (u64, PatchId)| e.1).contains(id)),
        r.1@ == existing@.filter(|e: (u64, PatchId)| !wanted@.contains(e.1)).map_values(|e: (u64, PatchId)| e.0),
{
    let mut have: Vec<PatchId> = Vec::new();
    let m = existing.len();
    for i in 0..m
        invariant
            m == existing@.len(),
            have@ == existing@.take(i as int).map_values(|e: (u64, PatchId)| e.1),
    {
        have.push(existing[i].1);
        assert(have@ =~= existing@.take(i + 1).map_values(|e: (u64, PatchId)| e.1));
    }
    assert(existing@.take(m as int) =~= existing@);
    let ghost have_ids = existing@.map_values(|e: (u64, PatchId)| e.1);
    let ghost p1 = |id: PatchId| !have_ids.contains(id);
    let mut spawn: Vec<PatchId> = Vec::new();
    let n = wanted.len();
    for i in 0..n
        invariant
            n == wanted@.len(),
            have@ == have_ids,
            p1 == (|id: PatchId| !have_ids.contains(id)),
            spawn@ == wanted@.take(i as int).filter(p1),
    {
        let ghost t = wanted@.take(i + 1);
        proof {
            assert(t.drop_last() =~= wanted@.take(i as int));
            assert(t.filter(p1) == (if p1(t.last()) {
                t.drop_last().filter(p1).push(t.last())
            } else {
                t.drop_last().filter(p1)
            })) by {
                reveal(Seq::filter);
            }
        }
        let id = wanted[i];
        if !has_id(&have, &id) {
            spawn.push(id);
        }
    }
    assert(wanted@.take(n as int) =~= wanted@);
    let ghost p2 = |e: (u64, PatchId)| !wanted@.contains(e.1);
    let mut despawn: Vec<u64> = Vec::new();
    for i in 0..m
        invariant
            m == existing@.len(),
            p2 == (|e: (u64, PatchId)| !wanted@.contains(e.1)),
            despawn@ == existing@.take(i as int).filter(p2).map_values(|e: (u64, PatchId)| e.0),
    {
        let ghost t = existing@.take(i + 1);
        proof {
            assert(t.drop_last() =~= existing@.take(i as int));
            assert(t.filter(p2) == (if p2(t.last()) {
                t.drop_last().filter(p2).push(t.last())
            } else {
                t.drop_last().filter(p2)
            })) by {
                reveal(Seq::filter);
            }
        }
        let (entity, id) = existing[i];
        if !has_id(wanted, &id) {
            despawn.push(entity);
            assert(despawn@ =~= t.filter(p2).map_values(|e: (u64, PatchId)| e.0));
        } else {
            assert(despawn@ =~= t.filter(p2).map_values(|e: (u64, PatchId)| e.0));
        }
    }
    assert(existing@.take(m as int) =~= existing@);
    (spawn, despawn)
}

/// The six faces of the cube sphere.
#[derive(Clone, Copy, Debug, PartialEq, Eq, Hash, Structural)]
pub enum CubeFace {
    PositiveX,
    NegativeX,
    PositiveY,
    NegativeY,
    PositiveZ,
    NegativeZ,
}

/// Stable index of a face.
pub open spec fn face_index(f: CubeFace) -> nat {
    match f {
        CubeFace::PositiveX => 0,
        CubeFace::NegativeX => 1,
        CubeFace::PositiveY => 2,
        CubeFace::NegativeY => 3,
        CubeFace::PositiveZ => 4,
        CubeFace::NegativeZ => 5,
    }
}

impl CubeFace {
    /// Index in `0..6`.
    pub fn as_index(self) -> (r: usize)
        ensures
            r == face_index(self),
            r < 6,
    {
        match self {
            CubeFace::PositiveX => 0,
            CubeFace::NegativeX => 1,
            CubeFace::PositiveY => 2,
            CubeFace::NegativeY => 3,
            CubeFace::PositiveZ => 4,
            CubeFace::NegativeZ => 5,
        }
    }

    /// All faces in index order.
    pub fn all() -> (r: [CubeFace; 6])
        ensures
            forall|i: int| 0 <= i < 6 ==> face_index(#[trigger] r@[i]) == i,
    {
        [
            CubeFace::PositiveX,
            CubeFace::NegativeX,
            CubeFace::PositiveY,
            CubeFace::NegativeY,
            CubeFace::PositiveZ,
            CubeFace::NegativeZ,
        ]
    }
}

/// Row-major index of `(x, y)` in a square of side `resolution`.
pub fn idx(resolution: u32, x: u32, y: u32) -> (r: usize)
    requires
        y * resolution + x <= u32::MAX,
    ensures
        r == y * resolution + x,
{
    (y * resolution + x) as usize
}

/// Per-face biome ids baked on a square grid.
pub struct GlobalBiomeMap {
    pub resolution: u32,
    pub faces: [Vec<u8>; 6],
}

impl GlobalBiomeMap {
    /// The texels of `face`.
    pub fn texels_for_face(&self, face: CubeFace) -> (r: &Vec<u8>)
        ensures
            r@ == self.faces@[face_index(face) as int]@,
    {
        &self.faces[face.as_index()]
    }

    /// Row-major index of texel `(x, y)`.
    pub fn texel_index(&self, x: u32, y: u32) -> (r: usize)
        requires
            y * self.resolution + x <= u32::MAX,
        ensures
            r == y * self.resolution + x,
    {
        idx(self.resolution, x, y)
    }

    /// Biome id at texel `(x, y)` of face `face` (faces past 5 read face 5);
    /// 0 for an empty map or a texel outside the face's data.
    pub fn biome_at_texel(&self, face: u8, x: u32, y: u32) -> (r: u8)
        requires
            y * self.resolution + x <= u32::MAX,
        ensures
            self.resolution == 0 ==> r == 0,
            self.resolution > 0 ==> {
                let f = if face > 5 { 5int } else { face as int };
                let t = self.faces@[f]@;
                let i = y * self.resolution + x;
                r == if i < t.len() { t[i] } else { 0 }
            },
    {
        if self.resolution == 0 {
            return 0;
        }
        let i = idx(self.resolution, x, y);
        let f: usize = if face > 5 { 5 } else { face as usize };
        let texels = &self.faces[f];
        if i < texels.len() {
            texels[i]
        } else {
            0
        }
    }
}

/// Per-face biome ids of the surface grid, `resolution` cells a side, row by row.
pub struct SurfaceBiomes {
    pub resolution: u32,
    pub biomes: [Vec<u8>; 6],
}

impl SurfaceBiomes {
    /// Biome id of cell `(x, y)` of `face`.
    pub fn biome_at(&self, face: u8, x: u32, y: u32) -> (r: u8)
        requires
            face < 6,
            y * self.resolution + x <= u32::MAX,
            y * self.resolution + x < self.biomes@[face as int]@.len(),
        ensures
            r == self.biomes@[face as int]@[y * self.resolution + x],
    {
        let i = idx(self.resolution, x, y);
        self.biomes[face as usize][i]
    }
}

/// The neighbouring cell after `c` along one axis, held inside a grid of
/// `resolution` cells: the second corner of a bilinear lookup.
pub fn next_cell(resolution: u32, c: u32) -> (r: u32)
    requires
        resolution >= 1,
        c < u32::MAX,
    ensures
        r == if c + 1 < resolution - 1 { c + 1 } else { resolution - 1 },
{
    let n = c + 1;
    if n < resolution - 1 {
        n
    } else {
        resolution - 1
    }
}

/// The tile ids present in `existing`.
pub open spec fn present_ids(existing: Seq<(u64, PatchId)>) -> Seq<PatchId> {
    existing.map_values(|e: (u64, PatchId)| e.1)
}

/// After a streaming diff is applied, exactly the wanted tiles are present:
/// a tile is wanted iff it is kept (present and not despawned) or spawned.
pub proof fn lemma_streaming_diff_converges(wanted: Seq<PatchId>, existing: Seq<(u64, PatchId)>)
    ensures
        forall|id: PatchId|
            #![trigger wanted.contains(id)]
            wanted.contains(id) <==> (existing.filter(|e: (u64, PatchId)| wanted.contains(e.1)).map_values(
                |e: (u64, PatchId)| e.1,
            ).contains(id) || wanted.filter(|x: PatchId| !present_ids(existing).contains(x)).contains(id)),
{
    let keep = |e: (u64, PatchId)| wanted.contains(e.1);
    let fresh = |x: PatchId| !present_ids(existing).contains(x);
    let kept = existing.filter(keep);
    let kept_ids = kept.map_values(|e: (u64, PatchId)| e.1);
    let spawned = wanted.filter(fresh);
    assert forall|id: PatchId| #![trigger wanted.contains(id)] wanted.contains(id) <==> (kept_ids.contains(id)
        || spawned.contains(id)) by {
        if wanted.contains(id) {
            if present_ids(existing).contains(id) {
                let j = choose|j: int| 0 <= j < present_ids(existing).len() && present_ids(existing)[j] == id;
                assert(keep(existing[j]));
                existing.lemma_filter_contains(keep, j);
                let k = choose|k: int| 0 <= k < kept.len() && kept[k] == existing[j];
                assert(kept_ids[k] == id);
            } else {
                let j = choose|j: int| 0 <= j < wanted.len() && wanted[j] == id;
                wanted.lemma_filter_contains(fresh, j);
            }
        }
        if kept_ids.contains(id) {
            let k = choose|k: int| 0 <= k < kept_ids.len() && kept_ids[k] == id;
            existing.lemma_filter_pred(keep, k);
        }
        if spawned.contains(id) {
            wanted.lemma_filter_contains_rev(fresh, id);
        }
    }
}

} // verus!
