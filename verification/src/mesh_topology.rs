//! Integer topology of the generated meshes: vertex counts per level, the
//! triangle lists of regular vertex grids, and the skirt that hides cracks
//! between neighbouring cube-sphere patches.
use vstd::prelude::*;

verus! {

/// Vertices per patch side at each level of detail.
pub open spec fn verts_for_level(level: u8) -> int {
    if level == 0 {
        10
    } else if level == 1 {
        13
    } else if level == 2 {
        16
    } else if level == 3 {
        19
    } else if level == 4 {
        22
    } else {
        24
    }
}

/// Vertices per patch side at `level`: finer levels get denser grids, up to 24.
pub fn verts_per_side(level: u8) -> (r: usize)
    ensures
        r == verts_for_level(level),
{
    match level {
        0 => 10,
        1 => 13,
        2 => 16,
        3 => 19,
        4 => 22,
        5 => 24,
        _ => 24,
    }
}

/// The six indices of the two triangles covering the grid cell at `(row, col)`,
/// in a grid whose rows are `stride` vertices apart.  With `a` the cell's first
/// corner, `b = a + 1`, `c = a + stride` and `d = c + 1`, a patch cell is
/// `(a, b, c), (b, d, c)` and a terrain cell is `(a, c, b), (b, c, d)`.
pub open spec fn cell_triangles(stride: int, row: int, col: int, terrain_winding: bool) -> Seq<int> {
    let a = row * stride + col;
    let b = a + 1;
    let c = a + stride;
    let d = c + 1;
    if terrain_winding {
        seq![a, c, b, b, c, d]
    } else {
        seq![a, b, c, b, d, c]
    }
}

/// Position of the cell `(row, col)` among `cols`-wide rows, row by row.
pub open spec fn cell_order(cols: int, row: int, col: int) -> int {
    row * cols + col
}

/// Whether `tris` lists, for every cell of a `cols` x `rows` grid in row-major
/// order, that cell's six indices.
pub open spec fn lists_cells(tris: Seq<u32>, cols: int, rows: int, stride: int, terrain_winding: bool) -> bool {
    &&& tris.len() == 6 * (rows * cols)
    &&& forall|row: int, col: int, k: int|
        0 <= row < rows && 0 <= col < cols && 0 <= k < 6 ==> #[trigger] tris[6 * cell_order(cols, row, col) + k]
            == cell_triangles(stride, row, col, terrain_winding)[k]
}

proof fn lemma_cell_before(cols: int, row: int, col: int, r2: int, c2: int)
    requires
        0 <= c2 < cols,
        0 <= col < cols,
        0 <= r2,
        r2 < row || (r2 == row && c2 < col),
    ensures
        cell_order(cols, r2, c2) < cell_order(cols, row, col),
{
    if r2 < row {
        assert(r2 * cols + cols <= row * cols) by (nonlinear_arith)
            requires
                r2 < row,
                0 <= cols,
        ;
    }
}

proof fn lemma_corner_bound(stride: int, rows: int, row: int, col: int)
    requires
        0 <= row < rows,
        0 <= col,
        col + 1 < stride,
    ensures
        row * stride + col + stride + 1 <= (rows + 1) * stride - 1,
{
    assert(row * stride + stride <= rows * stride) by (nonlinear_arith)
        requires
            row < rows,
            0 <= stride,
    ;
    assert((rows + 1) * stride == rows * stride + stride) by (nonlinear_arith);
}

/// Triangles of a `cols` x `rows` grid of cells whose vertex rows are
/// `cols + 1` apart.
fn cell_grid(cols: u32, rows: u32, terrain_winding: bool) -> (r: Vec<u32>)
    requires
        (cols + 1) * (rows + 1) <= 0x1_0000_0000,
    ensures
        lists_cells(r@, cols as int, rows as int, cols + 1, terrain_winding),
{
    let mut out: Vec<u32> = Vec::new();
    let ghost stride: int = cols + 1;
    let mut row: u32 = 0;
    assert(6 * (0 * cols) == 0) by (nonlinear_arith);
    while row < rows
        invariant
            stride == cols + 1,
            (cols + 1) * (rows + 1) <= 0x1_0000_0000,
            row <= rows,
            out@.len() == 6 * (row * cols),
            forall|r2: int, c2: int, k: int|
                0 <= r2 < row && 0 <= c2 < cols && 0 <= k < 6 ==> #[trigger] out@[6 * cell_order(cols as int, r2, c2) + k]
                    == cell_triangles(stride, r2, c2, terrain_winding)[k],
        decreases rows - row,
    {
        let mut col: u32 = 0;
        while col < cols
            invariant
                stride == cols + 1,
                (cols + 1) * (rows + 1) <= 0x1_0000_0000,
                row < rows,
                col <= cols,
                out@.len() == 6 * cell_order(cols as int, row as int, col as int),
                forall|r2: int, c2: int, k: int|
                    0 <= c2 < cols && 0 <= k < 6 && (0 <= r2 < row || (r2 == row && 0 <= c2 < col))
                        ==> #[trigger] out@[6 * cell_order(cols as int, r2, c2) + k] == cell_triangles(
                        stride,
                        r2,
                        c2,
                        terrain_winding,
                    )[k],
            decreases cols - col,
        {
            proof {
                lemma_corner_bound(stride, rows as int, row as int, col as int);
                assert((rows as int + 1) * stride == (cols as int + 1) * (rows as int + 1)) by (nonlinear_arith)
                    requires
                        stride == cols + 1,
                ;
                assert(0 <= row * stride) by (nonlinear_arith)
                    requires
                        0 <= row,
                        0 <= stride,
                ;
            }
            let a: u32 = row * (cols + 1) + col;
            let b: u32 = a + 1;
            let c: u32 = a + (cols + 1);
            let d: u32 = c + 1;
            let ghost before = out@;
            if terrain_winding {
                out.push(a);
                out.push(c);
                out.push(b);
                out.push(b);
                out.push(c);
                out.push(d);
            } else {
                out.push(a);
                out.push(b);
                out.push(c);
                out.push(b);
                out.push(d);
                out.push(c);
            }
            proof {
                let q = cell_order(cols as int, row as int, col as int);
                assert(out@.len() == before.len() + 6);
                assert forall|r2: int, c2: int, k: int|
                    0 <= c2 < cols && 0 <= k < 6 && (0 <= r2 < row || (r2 == row && 0 <= c2 < col + 1))
                        implies #[trigger] out@[6 * cell_order(cols as int, r2, c2) + k] == cell_triangles(
                        stride,
                        r2,
                        c2,
                        terrain_winding,
                    )[k] by {
                    if r2 == row && c2 == col {
                        assert(out@[6 * q + k] == out@[before.len() + k]);
                    } else {
                        lemma_cell_before(cols as int, row as int, col as int, r2, c2);
                        assert(out@[6 * cell_order(cols as int, r2, c2) + k] == before[6 * cell_order(
                            cols as int,
                            r2,
                            c2,
                        ) + k]);
                    }
                }
                assert(out@.len() == 6 * cell_order(cols as int, row as int, col + 1));
            }
            col = col + 1;
        }
        proof {
            assert(cell_order(cols as int, row as int, cols as int) == (row + 1) * cols) by (nonlinear_arith);
        }
        row = row + 1;
    }
    out
}

/// Triangles of a square patch grid with `verts` vertices per side, cell by
/// cell in row-major order, wound `(a, b, c), (b, d, c)`.
pub fn patch_grid_indices(verts: u32) -> (r: Vec<u32>)
    requires
        2 <= verts,
        verts * verts <= 0x1_0000_0000,
    ensures
        lists_cells(r@, verts - 1, verts - 1, verts as int, false),
        forall|i: int| 0 <= i < r@.len() ==> #[trigger] r@[i] < verts * verts,
{
    let r = cell_grid(verts - 1, verts - 1, false);
    proof {
        lemma_grid_indices_in_range(r@, verts - 1, verts - 1, false);
        assert((verts - 1 + 1) * (verts - 1 + 1) == verts * verts);
    }
    r
}

/// Triangles of a terrain grid of `cols` x `rows` cells (so `cols + 1`
/// vertices per row), wound `(a, c, b), (b, c, d)`.
pub fn terrain_grid_indices(cols: u32, rows: u32) -> (r: Vec<u32>)
    requires
        (cols + 1) * (rows + 1) <= 0x1_0000_0000,
    ensures
        lists_cells(r@, cols as int, rows as int, cols + 1, true),
        forall|i: int| 0 <= i < r@.len() ==> #[trigger] r@[i] < (cols + 1) * (rows + 1),
{
    let r = cell_grid(cols, rows, true);
    proof {
        lemma_grid_indices_in_range(r@, cols as int, rows as int, true);
    }
    r
}

/// Every index of a cell grid names one of its `(cols + 1) * (rows + 1)` vertices.
pub proof fn lemma_cell_indices_in_range(cols: int, rows: int, terrain_winding: bool, row: int, col: int, k: int)
    requires
        0 <= row < rows,
        0 <= col < cols,
        0 <= k < 6,
    ensures
        0 <= cell_triangles(cols + 1, row, col, terrain_winding)[k] < (cols + 1) * (rows + 1),
{
    lemma_corner_bound(cols + 1, rows, row, col);
    assert(0 <= row * (cols + 1)) by (nonlinear_arith)
        requires
            0 <= row,
            0 <= cols,
    ;
    assert((rows + 1) * (cols + 1) == (cols + 1) * (rows + 1)) by (nonlinear_arith);
}

/// Whether the vertex at `(row, col)` lies on the outline of a square grid
/// with `verts` vertices per side.
pub open spec fn on_outline(verts: int, row: int, col: int) -> bool {
    row == 0 || row == verts - 1 || col == 0 || col == verts - 1
}

/// How many outline vertices come before `(row, col)` in row-major order
/// (`0 <= col <= verts`): the whole first row, then two per middle row (the
/// first and last column), then the whole last row.
pub open spec fn outline_before(verts: int, row: int, col: int) -> int {
    if row == 0 {
        col
    } else if row < verts - 1 {
        verts + 2 * (row - 1) + (if col >= 1 { 1int } else { 0 }) + (if col >= verts { 1int } else { 0 })
    } else {
        verts + 2 * (verts - 2) + col
    }
}

/// Index of the skirt copy of the outline vertex `(row, col)`: skirt vertices
/// follow the `verts * verts` grid vertices, in row-major order of their sources.
pub open spec fn skirt_vertex(verts: int, row: int, col: int) -> int {
    verts * verts + outline_before(verts, row, col)
}

/// The two triangles that hang the skirt below the outline edge from
/// `(ra, ca)` to `(rb, cb)`: `(a, b, sa), (sa, b, sb)` with `sa`, `sb` the skirt
/// copies of `a` and `b`.
pub open spec fn skirt_edge(verts: int, ra: int, ca: int, rb: int, cb: int) -> Seq<int> {
    let a = ra * verts + ca;
    let b = rb * verts + cb;
    let sa = skirt_vertex(verts, ra, ca);
    let sb = skirt_vertex(verts, rb, cb);
    seq![a, b, sa, sa, b, sb]
}

/// The skirt triangles emitted at step `i` along the outline: the top edge,
/// the bottom edge, the left edge and the right edge, each from `i` to `i + 1`.
pub open spec fn skirt_step(verts: int, i: int) -> Seq<int> {
    let last = verts - 1;
    skirt_edge(verts, 0, i, 0, i + 1) + skirt_edge(verts, last, i, last, i + 1) + skirt_edge(verts, i, 0, i + 1, 0)
        + skirt_edge(verts, i, last, i + 1, last)
}

/// The skirt of a square patch: which grid vertices get a lowered copy, and
/// the triangles joining the outline to those copies.
pub struct PatchSkirt {
    /// Grid vertex of each skirt vertex, in order; skirt vertex `k` is vertex
    /// `verts * verts + k` of the mesh.
    pub sources: Vec<u32>,
    /// Skirt triangles, four edges per step along the outline.
    pub indices: Vec<u32>,
}

/// The skirt of a patch grid with `verts` vertices per side: one copy of
/// every outline vertex, and two triangles per outline edge.
pub fn patch_skirt(verts: u32) -> (r: PatchSkirt)
    requires
        2 <= verts,
        verts * verts + 4 * (verts - 1) <= 0x1_0000_0000,
    ensures
        r.sources@.len() == 4 * (verts - 1),
        forall|row: int, col: int|
            0 <= row < verts && 0 <= col < verts && on_outline(verts as int, row, col) ==> #[trigger] r.sources@[outline_before(
                verts as int,
                row,
                col,
            )] == row * verts + col,
        r.indices@.len() == 24 * (verts - 1),
        forall|i: int, k: int|
            0 <= i < verts - 1 && 0 <= k < 24 ==> #[trigger] r.indices@[24 * i + k] == skirt_step(verts as int, i)[k],
        forall|j: int| 0 <= j < r.indices@.len() ==> #[trigger] r.indices@[j] < verts * verts + 4 * (verts - 1),
        forall|j: int| 0 <= j < r.sources@.len() ==> #[trigger] r.sources@[j] < verts * verts,
{
    let ghost v: int = verts as int;
    let base: u32 = verts * verts;
    let mut slot: Vec<Option<u32>> = Vec::new();
    let mut sources: Vec<u32> = Vec::new();
    let mut count: u32 = 0;
    let mut row: u32 = 0;
    assert(0 * v == 0);
    while row < verts
        invariant
            v == verts,
            2 <= verts,
            base == v * v,
            v * v + 4 * (v - 1) <= 0x1_0000_0000,
            row <= verts,
            slot@.len() == row * v,
            count == if row < verts { outline_before(v, row as int, 0) } else { 4 * (v - 1) },
            sources@.len() == count,
            forall|r2: int, c2: int|
                0 <= r2 < row && 0 <= c2 < v ==> #[trigger] slot@[r2 * v + c2] == if on_outline(v, r2, c2) {
                    Some((v * v + outline_before(v, r2, c2)) as u32)
                } else {
                    None::<u32>
                },
            forall|r2: int, c2: int|
                0 <= r2 < row && 0 <= c2 < v && on_outline(v, r2, c2) ==> #[trigger] sources@[outline_before(v, r2, c2)]
                    == r2 * v + c2,
        decreases verts - row,
    {
        let mut col: u32 = 0;
        while col < verts
            invariant
                v == verts,
                2 <= verts,
                base == v * v,
                v * v + 4 * (v - 1) <= 0x1_0000_0000,
                row < verts,
                col <= verts,
                slot@.len() == row * v + col,
                count == outline_before(v, row as int, col as int),
                sources@.len() == count,
                forall|r2: int, c2: int|
                    0 <= c2 < v && (0 <= r2 < row || (r2 == row && c2 < col)) ==> #[trigger] slot@[r2 * v + c2] == if on_outline(
                        v,
                        r2,
                        c2,
                    ) {
                        Some((v * v + outline_before(v, r2, c2)) as u32)
                    } else {
                        None::<u32>
                    },
                forall|r2: int, c2: int|
                    0 <= c2 < v && (0 <= r2 < row || (r2 == row && c2 < col)) && on_outline(v, r2, c2)
                        ==> #[trigger] sources@[outline_before(v, r2, c2)] == r2 * v + c2,
            decreases verts - col,
        {
            proof {
                assert(row * v + col < v * v) by (nonlinear_arith)
                    requires
                        row < v,
                        col < v,
                ;
                assert(outline_before(v, row as int, col as int) <= 4 * (v - 1));
            }
            let ghost slot_before = slot@;
            let ghost sources_before = sources@;
            let idx: u32 = row * verts + col;
            if row == 0 || row == verts - 1 || col == 0 || col == verts - 1 {
                slot.push(Some(base + count));
                sources.push(idx);
                count = count + 1;
            } else {
                slot.push(None);
            }
            proof {
                assert forall|r2: int, c2: int|
                    0 <= c2 < v && (0 <= r2 < row || (r2 == row && c2 < col + 1)) implies #[trigger] slot@[r2 * v + c2]
                    == if on_outline(v, r2, c2) {
                        Some((v * v + outline_before(v, r2, c2)) as u32)
                    } else {
                        None::<u32>
                    } by {
                    if !(r2 == row && c2 == col) {
                        lemma_cell_before(v, row as int, col as int, r2, c2);
                        assert(slot@[r2 * v + c2] == slot_before[r2 * v + c2]);
                    }
                }
                assert forall|r2: int, c2: int|
                    0 <= c2 < v && (0 <= r2 < row || (r2 == row && c2 < col + 1)) && on_outline(v, r2, c2)
                        implies #[trigger] sources@[outline_before(v, r2, c2)] == r2 * v + c2 by {
                    if !(r2 == row && c2 == col) {
                        lemma_outline_order(v, row as int, col as int, r2, c2);
                        assert(sources@[outline_before(v, r2, c2)] == sources_before[outline_before(v, r2, c2)]);
                    }
                }
            }
            col = col + 1;
        }
        proof {
            assert(slot@.len() == (row + 1) * v) by (nonlinear_arith)
                requires
                    slot@.len() == row * v + v,
            ;
        }
        row = row + 1;
    }
    let mut indices: Vec<u32> = Vec::new();
    let last: u32 = verts - 1;
    let mut i: u32 = 0;
    while i < last
        invariant
            v == verts,
            2 <= verts,
            last == v - 1,
            v * v + 4 * (v - 1) <= 0x1_0000_0000,
            slot@.len() == v * v,
            i <= last,
            forall|r2: int, c2: int|
                0 <= r2 < v && 0 <= c2 < v ==> #[trigger] slot@[r2 * v + c2] == if on_outline(v, r2, c2) {
                    Some((v * v + outline_before(v, r2, c2)) as u32)
                } else {
                    None::<u32>
                },
            indices@.len() == 24 * i,
            forall|i2: int, k: int|
                0 <= i2 < i && 0 <= k < 24 ==> #[trigger] indices@[24 * i2 + k] == skirt_step(v, i2)[k],
        decreases last - i,
    {
        let ghost before = indices@;
        proof {
            lemma_outline_slot_bound(v, 0, i as int);
            lemma_outline_slot_bound(v, 0, i + 1);
            lemma_outline_slot_bound(v, v - 1, i as int);
            lemma_outline_slot_bound(v, v - 1, i + 1);
            lemma_outline_slot_bound(v, i as int, 0);
            lemma_outline_slot_bound(v, i + 1, 0);
            lemma_outline_slot_bound(v, i as int, v - 1);
            lemma_outline_slot_bound(v, i + 1, v - 1);
        }
        push_skirt_edge(&mut indices, &slot, verts, 0, i, 0, i + 1);
        push_skirt_edge(&mut indices, &slot, verts, last, i, last, i + 1);
        push_skirt_edge(&mut indices, &slot, verts, i, 0, i + 1, 0);
        push_skirt_edge(&mut indices, &slot, verts, i, last, i + 1, last);
        proof {
            let step = skirt_step(v, i as int);
            lemma_skirt_indices_in_range(v, i as int);
            assert(indices@ =~= before + step.map_values(|x: int| x as u32));
            assert forall|i2: int, k: int| 0 <= i2 < i + 1 && 0 <= k < 24 implies #[trigger] indices@[24 * i2 + k]
                == skirt_step(v, i2)[k] by {
                if i2 < i {
                    assert(indices@[24 * i2 + k] == before[24 * i2 + k]);
                } else {
                    assert(indices@[24 * i2 + k] == step[k]);
                }
            }
        }
        i = i + 1;
    }
    proof {
        lemma_skirt_vector_in_range(verts as int, indices@);
        lemma_sources_in_range(verts as int, sources@);
    }
    PatchSkirt { sources, indices }
}

/// Appends the two triangles of the skirt edge from `(ra, ca)` to `(rb, cb)`.
fn push_skirt_edge(indices: &mut Vec<u32>, slot: &Vec<Option<u32>>, verts: u32, ra: u32, ca: u32, rb: u32, cb: u32)
    requires
        2 <= verts,
        verts * verts + 4 * (verts - 1) <= 0x1_0000_0000,
        ra < verts && ca < verts && rb < verts && cb < verts,
        on_outline(verts as int, ra as int, ca as int),
        on_outline(verts as int, rb as int, cb as int),
        slot@.len() == verts * verts,
        skirt_vertex(verts as int, ra as int, ca as int) < 0x1_0000_0000,
        skirt_vertex(verts as int, rb as int, cb as int) < 0x1_0000_0000,
        forall|r2: int, c2: int|
            0 <= r2 < verts && 0 <= c2 < verts ==> #[trigger] slot@[r2 * verts + c2] == if on_outline(
                verts as int,
                r2,
                c2,
            ) {
                Some((verts * verts + outline_before(verts as int, r2, c2)) as u32)
            } else {
                None::<u32>
            },
    ensures
        final(indices)@ == old(indices)@ + skirt_edge(verts as int, ra as int, ca as int, rb as int, cb as int).map_values(
            |x: int| x as u32,
        ),
{
    proof {
        assert(ra * verts + ca < verts * verts) by (nonlinear_arith)
            requires
                ra < verts,
                ca < verts,
        ;
        assert(rb * verts + cb < verts * verts) by (nonlinear_arith)
            requires
                rb < verts,
                cb < verts,
        ;
        assert(slot@[ra * verts + ca] == Some(skirt_vertex(verts as int, ra as int, ca as int) as u32));
        assert(slot@[rb * verts + cb] == Some(skirt_vertex(verts as int, rb as int, cb as int) as u32));
    }
    let a: u32 = ra * verts + ca;
    let b: u32 = rb * verts + cb;
    let ghost old_indices = indices@;
    match (slot[a as usize], slot[b as usize]) {
        (Some(sa), Some(sb)) => {
            indices.push(a);
            indices.push(b);
            indices.push(sa);
            indices.push(sa);
            indices.push(b);
            indices.push(sb);
        },
        _ => {},
    }
    assert(indices@ =~= old_indices + skirt_edge(verts as int, ra as int, ca as int, rb as int, cb as int).map_values(
        |x: int| x as u32,
    ));
}

/// Outline vertices are numbered in row-major order: one that comes earlier
/// in the grid has the smaller skirt number.
proof fn lemma_outline_order(v: int, row: int, col: int, r2: int, c2: int)
    requires
        2 <= v,
        0 <= row < v,
        0 <= col < v,
        0 <= c2 < v,
        0 <= r2,
        r2 < row || (r2 == row && c2 < col),
        on_outline(v, r2, c2),
    ensures
        outline_before(v, r2, c2) < outline_before(v, row, col),
{
}

/// Every index of a skirt step names a vertex of the mesh: one of the
/// `verts * verts` grid vertices or one of the `4 * (verts - 1)` skirt vertices.
pub proof fn lemma_skirt_indices_in_range(verts: int, i: int)
    requires
        2 <= verts,
        0 <= i < verts - 1,
    ensures
        skirt_step(verts, i).len() == 24,
        forall|k: int| 0 <= k < 24 ==> 0 <= #[trigger] skirt_step(verts, i)[k] < verts * verts + 4 * (verts - 1),
{
    let last = verts - 1;
    lemma_edge_in_range(verts, 0, i, 0, i + 1);
    lemma_edge_in_range(verts, last, i, last, i + 1);
    lemma_edge_in_range(verts, i, 0, i + 1, 0);
    lemma_edge_in_range(verts, i, last, i + 1, last);
    let e0 = skirt_edge(verts, 0, i, 0, i + 1);
    let e1 = skirt_edge(verts, last, i, last, i + 1);
    let e2 = skirt_edge(verts, i, 0, i + 1, 0);
    let e3 = skirt_edge(verts, i, last, i + 1, last);
    assert forall|k: int| 0 <= k < 24 implies 0 <= #[trigger] skirt_step(verts, i)[k] < verts * verts + 4 * (verts
        - 1) by {
        if k < 6 {
            assert(skirt_step(verts, i)[k] == e0[k]);
        } else if k < 12 {
            assert(skirt_step(verts, i)[k] == e1[k - 6]);
        } else if k < 18 {
            assert(skirt_step(verts, i)[k] == e2[k - 12]);
        } else {
            assert(skirt_step(verts, i)[k] == e3[k - 18]);
        }
    }
}

proof fn lemma_edge_in_range(v: int, ra: int, ca: int, rb: int, cb: int)
    requires
        2 <= v,
        0 <= ra < v && 0 <= ca < v && 0 <= rb < v && 0 <= cb < v,
        on_outline(v, ra, ca),
        on_outline(v, rb, cb),
    ensures
        forall|k: int| 0 <= k < 6 ==> 0 <= #[trigger] skirt_edge(v, ra, ca, rb, cb)[k] < v * v + 4 * (v - 1),
{
    assert(0 <= ra * v + ca < v * v) by (nonlinear_arith)
        requires
            0 <= ra < v,
            0 <= ca < v,
    ;
    assert(0 <= rb * v + cb < v * v) by (nonlinear_arith)
        requires
            0 <= rb < v,
            0 <= cb < v,
    ;
    lemma_outline_slot_bound(v, ra, ca);
    lemma_outline_slot_bound(v, rb, cb);
}

/// Skirt numbers of outline vertices stay below the outline's length.
proof fn lemma_outline_slot_bound(v: int, row: int, col: int)
    requires
        2 <= v,
        0 <= row < v,
        0 <= col < v,
    ensures
        0 <= outline_before(v, row, col) < 4 * (v - 1) || !on_outline(v, row, col),
{
}

/// Every index of a whole cell grid names one of its `(cols + 1) * (rows + 1)` vertices.
pub proof fn lemma_grid_indices_in_range(tris: Seq<u32>, cols: int, rows: int, terrain_winding: bool)
    requires
        0 <= cols,
        0 <= rows,
        lists_cells(tris, cols, rows, cols + 1, terrain_winding),
    ensures
        forall|i: int| 0 <= i < tris.len() ==> #[trigger] tris[i] < (cols + 1) * (rows + 1),
{
    assert forall|i: int| 0 <= i < tris.len() implies #[trigger] tris[i] < (cols + 1) * (rows + 1) by {
        let cell = i / 6;
        let k = i % 6;
        assert(i == 6 * cell + k && 0 <= k < 6 && 0 <= cell) by (nonlinear_arith)
            requires
                0 <= i,
                cell == i / 6,
                k == i % 6,
        ;
        assert(cell < rows * cols) by (nonlinear_arith)
            requires
                i == 6 * cell + k,
                0 <= k < 6,
                i < 6 * (rows * cols),
        ;
        assert(cols > 0) by (nonlinear_arith)
            requires
                0 <= cell < rows * cols,
                0 <= rows,
                0 <= cols,
        ;
        let row = cell / cols;
        let col = cell % cols;
        assert(cell == row * cols + col && 0 <= col < cols && 0 <= row) by (nonlinear_arith)
            requires
                0 <= cell,
                0 < cols,
                row == cell / cols,
                col == cell % cols,
        ;
        assert(row < rows) by (nonlinear_arith)
            requires
                cell == row * cols + col,
                0 <= col < cols,
                0 <= row,
                cell < rows * cols,
        ;
        assert(cell_order(cols, row, col) == cell);
        assert(tris[6 * cell_order(cols, row, col) + k] == cell_triangles(cols + 1, row, col, terrain_winding)[k]);
        lemma_cell_indices_in_range(cols, rows, terrain_winding, row, col, k);
    }
}

proof fn lemma_skirt_vector_in_range(verts: int, indices: Seq<u32>)
    requires
        2 <= verts,
        indices.len() == 24 * (verts - 1),
        forall|i: int, k: int|
            0 <= i < verts - 1 && 0 <= k < 24 ==> #[trigger] indices[24 * i + k] == skirt_step(verts, i)[k],
    ensures
        forall|j: int| 0 <= j < indices.len() ==> #[trigger] indices[j] < verts * verts + 4 * (verts - 1),
{
    assert forall|j: int| 0 <= j < indices.len() implies #[trigger] indices[j] < verts * verts + 4 * (verts - 1) by {
        let i = j / 24;
        let k = j % 24;
        assert(j == 24 * i + k && 0 <= k < 24 && 0 <= i < verts - 1) by (nonlinear_arith)
            requires
                0 <= j < 24 * (verts - 1),
                i == j / 24,
                k == j % 24,
        ;
        lemma_skirt_indices_in_range(verts, i);
        assert(indices[24 * i + k] == skirt_step(verts, i)[k]);
    }
}

/// Every skirt slot `j < 4 * (verts - 1)` belongs to an outline vertex.
proof fn lemma_outline_slot_onto(v: int, j: int) -> (rc: (int, int))
    requires
        2 <= v,
        0 <= j < 4 * (v - 1),
    ensures
        0 <= rc.0 < v,
        0 <= rc.1 < v,
        on_outline(v, rc.0, rc.1),
        outline_before(v, rc.0, rc.1) == j,
{
    if j < v {
        (0, j)
    } else if j < v + 2 * (v - 2) {
        let m = j - v;
        let row = 1 + m / 2;
        if m % 2 == 0 {
            (row, 0)
        } else {
            (row, v - 1)
        }
    } else {
        (v - 1, j - v - 2 * (v - 2))
    }
}

proof fn lemma_sources_in_range(verts: int, sources: Seq<u32>)
    requires
        2 <= verts,
        sources.len() == 4 * (verts - 1),
        forall|row: int, col: int|
            0 <= row < verts && 0 <= col < verts && on_outline(verts, row, col) ==> #[trigger] sources[outline_before(
                verts,
                row,
                col,
            )] == row * verts + col,
    ensures
        forall|j: int| 0 <= j < sources.len() ==> #[trigger] sources[j] < verts * verts,
{
    assert forall|j: int| 0 <= j < sources.len() implies #[trigger] sources[j] < verts * verts by {
        let (row, col) = lemma_outline_slot_onto(verts, j);
        assert(sources[outline_before(verts, row, col)] == row * verts + col);
        assert(row * verts + col < verts * verts) by (nonlinear_arith)
            requires
                0 <= row < verts,
                0 <= col < verts,
        ;
    }
}

} // verus!
