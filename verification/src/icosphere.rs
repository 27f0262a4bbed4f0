//! Connectivity of the subdivided icosahedron that the planet mesh is built
//! on.  Each subdivision splits every triangle into four, putting one new
//! vertex in the middle of each edge; a vertex shared by two triangles is
//! created once.  Vertex positions are left to the caller, who places the
//! twelve icosahedron corners and then each midpoint between its two parents.
use vstd::prelude::*;
use std::collections::HashMap;

verus! {

broadcast use vstd::std_specs::hash::group_hash_axioms;

/// Number of icosahedron corners; midpoint vertices are numbered after them.
pub const CORNERS: u32 = 12;

/// A triangle by its three vertex indices.
pub type Face = (u32, u32, u32);

/// An edge by its two end vertices, smaller index first.
pub type Edge = (u32, u32);

/// The twenty triangles of the icosahedron.
pub open spec fn base_faces() -> Seq<Face> {
    seq![
        (0u32, 11u32, 5u32),
        (0, 5, 1),
        (0, 1, 7),
        (0, 7, 10),
        (0, 10, 11),
        (1, 5, 9),
        (5, 11, 4),
        (11, 10, 2),
        (10, 7, 6),
        (7, 1, 8),
        (3, 9, 4),
        (3, 4, 2),
        (3, 2, 6),
        (3, 6, 8),
        (3, 8, 9),
        (4, 9, 5),
        (2, 4, 11),
        (6, 2, 10),
        (8, 6, 7),
        (9, 8, 1),
    ]
}

/// The edge between `a` and `b`, smaller index first.
pub open spec fn edge_of(a: u32, b: u32) -> Edge {
    if a < b {
        (a, b)
    } else {
        (b, a)
    }
}

/// `mids` with `e` appended, unless it is already there.
pub open spec fn with_edge(mids: Seq<Edge>, e: Edge) -> Seq<Edge> {
    if mids.contains(e) {
        mids
    } else {
        mids.push(e)
    }
}

/// The vertex in the middle of edge `e`, whose midpoints are numbered as in `mids`.
pub open spec fn midpoint_vertex(mids: Seq<Edge>, e: Edge) -> u32 {
    (CORNERS + mids.index_of(e)) as u32
}

/// `mids` after the three edges of `f` are split, in the order ab, bc, ca.
pub open spec fn with_face_edges(mids: Seq<Edge>, f: Face) -> Seq<Edge> {
    with_edge(with_edge(with_edge(mids, edge_of(f.0, f.1)), edge_of(f.1, f.2)), edge_of(f.2, f.0))
}

/// The four triangles that replace `f`: one at each corner and one in the
/// middle, with midpoints numbered as in `mids`.
pub open spec fn split_face(mids: Seq<Edge>, f: Face) -> Seq<Face> {
    let (a, b, c) = f;
    let ab = midpoint_vertex(mids, edge_of(a, b));
    let bc = midpoint_vertex(mids, edge_of(b, c));
    let ca = midpoint_vertex(mids, edge_of(c, a));
    seq![(a, ab, ca), (b, bc, ab), (c, ca, bc), (ab, bc, ca)]
}

/// One subdivision of `faces`, face by face, starting from the midpoints
/// `mids` already created: the new faces and all midpoints.
pub open spec fn subdivide(faces: Seq<Face>, mids: Seq<Edge>) -> (Seq<Face>, Seq<Edge>)
    decreases faces.len(),
{
    if faces.len() == 0 {
        (Seq::empty(), mids)
    } else {
        let (done, m0) = subdivide(faces.drop_last(), mids);
        let m1 = with_face_edges(m0, faces.last());
        (done + split_face(m1, faces.last()), m1)
    }
}

/// Faces and midpoints after `s` subdivisions of the icosahedron.
pub open spec fn icosphere(s: nat) -> (Seq<Face>, Seq<Edge>)
    decreases s,
{
    if s == 0 {
        (base_faces(), Seq::empty())
    } else {
        let (faces, mids) = icosphere((s - 1) as nat);
        subdivide(faces, mids)
    }
}

/// Four to the power `n`.
pub open spec fn pow4(n: nat) -> nat
    decreases n,
{
    if n == 0 {
        1
    } else {
        4 * pow4((n - 1) as nat)
    }
}

/// Triangles and midpoint parents of a subdivided icosahedron.
pub struct IcosphereTopology {
    /// Triangles, by vertex index.
    pub faces: Vec<Face>,
    /// The two parents of each vertex past the twelve corners, in vertex order:
    /// vertex `12 + k` lies halfway between the vertices of `midpoints[k]`.
    pub midpoints: Vec<Edge>,
}

/// The hash-map key of an edge.
pub open spec fn edge_key(e: Edge) -> u64 {
    (e.0 * 0x1_0000_0000 + e.1) as u64
}

proof fn lemma_edge_key_injective(e1: Edge, e2: Edge)
    requires
        edge_key(e1) == edge_key(e2),
    ensures
        e1 == e2,
{
    let a1 = e1.0 as int;
    let b1 = e1.1 as int;
    let a2 = e2.0 as int;
    let b2 = e2.1 as int;
    assert(a1 * 0x1_0000_0000 + b1 < 0x1_0000_0000_0000_0000) by (nonlinear_arith)
        requires
            0 <= a1 < 0x1_0000_0000,
            0 <= b1 < 0x1_0000_0000,
    ;
    assert(a2 * 0x1_0000_0000 + b2 < 0x1_0000_0000_0000_0000) by (nonlinear_arith)
        requires
            0 <= a2 < 0x1_0000_0000,
            0 <= b2 < 0x1_0000_0000,
    ;
    assert(a1 == a2 && b1 == b2) by (nonlinear_arith)
        requires
            0 <= b1 < 0x1_0000_0000,
            0 <= b2 < 0x1_0000_0000,
            a1 * 0x1_0000_0000 + b1 == a2 * 0x1_0000_0000 + b2,
    ;
}

/// In a sequence without repeats, the index of an element is its position.
proof fn lemma_index_of_unique(mids: Seq<Edge>, i: int)
    requires
        mids.no_duplicates(),
        0 <= i < mids.len(),
    ensures
        mids.index_of(mids[i]) == i,
{
    assert(mids.contains(mids[i]));
    let j = mids.index_of(mids[i]);
    assert(0 <= j < mids.len() && mids[j] == mids[i]);
}

/// The midpoint table: every created edge, and a map from each edge's key to
/// its vertex.
pub open spec fn table_ok(index: Map<u64, u32>, mids: Seq<Edge>) -> bool {
    &&& mids.no_duplicates()
    &&& CORNERS + mids.len() <= u32::MAX
    &&& forall|i: int| 0 <= i < mids.len() ==> #[trigger] index.contains_key(edge_key(mids[i])) && index[edge_key(mids[i])] == CORNERS + i
    &&& forall|k: u64| #[trigger] index.contains_key(k) ==> exists|i: int| 0 <= i < mids.len() && edge_key(mids[i]) == k
}

/// The vertex in the middle of `a`-`b`, created if the edge is new.
fn midpoint(index: &mut HashMap<u64, u32>, mids: &mut Vec<Edge>, a: u32, b: u32) -> (r: u32)
    requires
        table_ok(old(index)@, old(mids)@),
        CORNERS + old(mids)@.len() < u32::MAX,
    ensures
        final(mids)@ == with_edge(old(mids)@, edge_of(a, b)),
        table_ok(final(index)@, final(mids)@),
        r == midpoint_vertex(final(mids)@, edge_of(a, b)),
        r < CORNERS + final(mids)@.len(),
{
    let e: Edge = if a < b {
        (a, b)
    } else {
        (b, a)
    };
    let key: u64 = e.0 as u64 * 0x1_0000_0000 + e.1 as u64;
    assert(key == edge_key(e));
    match index.get(&key) {
        Some(i) => {
            let i = *i;
            proof {
                let w = choose|j: int| 0 <= j < mids@.len() && edge_key(mids@[j]) == key;
                lemma_edge_key_injective(mids@[w], e);
                lemma_index_of_unique(mids@, w);
                assert(mids@.contains(e));
            }
            i
        },
        None => {
            let ghost before_index = index@;
            let ghost before = mids@;
            proof {
                if mids@.contains(e) {
                    let w = choose|j: int| 0 <= j < mids@.len() && mids@[j] == e;
                    assert(index@.contains_key(edge_key(mids@[w])));
                }
            }
            let i: u32 = CORNERS + mids.len() as u32;
            mids.push(e);
            index.insert(key, i);
            proof {
                assert(mids@.no_duplicates()) by {
                    assert forall|x: int, y: int| 0 <= x < y < mids@.len() implies mids@[x] != mids@[y] by {
                        if y == before.len() {
                            assert(before.contains(before[x]));
                        }
                    }
                }
                assert forall|j: int| 0 <= j < mids@.len() implies #[trigger] index@.contains_key(edge_key(mids@[j]))
                    && index@[edge_key(mids@[j])] == CORNERS + j by {
                    if j < before.len() {
                        if edge_key(mids@[j]) == key {
                            lemma_edge_key_injective(mids@[j], e);
                            assert(before.contains(e));
                        }
                    }
                }
                assert forall|k: u64| #[trigger] index@.contains_key(k) implies exists|j: int|
                    0 <= j < mids@.len() && edge_key(mids@[j]) == k by {
                    if k == key {
                        assert(edge_key(mids@[before.len() as int]) == k);
                    } else {
                        assert(before_index.contains_key(k));
                        let j = choose|j: int| 0 <= j < before.len() && edge_key(before[j]) == k;
                        assert(edge_key(mids@[j]) == k);
                    }
                }
                lemma_index_of_unique(mids@, before.len() as int);
            }
            i
        },
    }
}

/// In a sequence without repeats that holds `e`, adding another edge keeps `e`'s index.
proof fn lemma_with_edge_keeps_index(mids: Seq<Edge>, e: Edge, e2: Edge)
    requires
        mids.no_duplicates(),
        mids.contains(e),
    ensures
        with_edge(mids, e2).index_of(e) == mids.index_of(e),
        with_edge(mids, e2).contains(e),
{
    let i = mids.index_of(e);
    let m2 = with_edge(mids, e2);
    assert(m2[i] == e);
    assert(m2.no_duplicates()) by {
        if !mids.contains(e2) {
            assert forall|x: int, y: int| 0 <= x < y < m2.len() implies m2[x] != m2[y] by {
                if y == mids.len() {
                    assert(mids.contains(mids[x]));
                }
            }
        }
    }
    lemma_index_of_unique(m2, i);
}

proof fn lemma_with_edge_contains(mids: Seq<Edge>, e: Edge)
    ensures
        with_edge(mids, e).contains(e),
{
    if !mids.contains(e) {
        assert(mids.push(e)[mids.len() as int] == e);
    }
}

/// The twenty icosahedron faces.
fn icosahedron_faces() -> (r: Vec<Face>)
    ensures
        r@ == base_faces(),
{
    let r: Vec<Face> = vec![
        (0, 11, 5),
        (0, 5, 1),
        (0, 1, 7),
        (0, 7, 10),
        (0, 10, 11),
        (1, 5, 9),
        (5, 11, 4),
        (11, 10, 2),
        (10, 7, 6),
        (7, 1, 8),
        (3, 9, 4),
        (3, 4, 2),
        (3, 2, 6),
        (3, 6, 8),
        (3, 8, 9),
        (4, 9, 5),
        (2, 4, 11),
        (6, 2, 10),
        (8, 6, 7),
        (9, 8, 1),
    ];
    assert(r@ =~= base_faces());
    r
}

/// Whether every vertex of every face is one of the first `n` vertices.
pub open spec fn faces_below(faces: Seq<Face>, n: int) -> bool {
    forall|i: int| 0 <= i < faces.len() ==> (#[trigger] faces[i]).0 < n && faces[i].1 < n && faces[i].2 < n
}

/// Whether each midpoint's parents come before it: vertex `12 + k` lies
/// between two vertices with smaller indices.
pub open spec fn parents_first(mids: Seq<Edge>) -> bool {
    forall|k: int| 0 <= k < mids.len() ==> (#[trigger] mids[k]).0 <= mids[k].1 && mids[k].1 < CORNERS + k
}

/// One subdivision pass over `faces`.
fn subdivide_once(faces: &Vec<Face>, index: &mut HashMap<u64, u32>, mids: &mut Vec<Edge>) -> (r: Vec<Face>)
    requires
        table_ok(old(index)@, old(mids)@),
        CORNERS + old(mids)@.len() + 3 * faces@.len() <= u32::MAX,
        faces_below(faces@, CORNERS + old(mids)@.len()),
        parents_first(old(mids)@),
    ensures
        (r@, final(mids)@) == subdivide(faces@, old(mids)@),
        table_ok(final(index)@, final(mids)@),
        r@.len() == 4 * faces@.len(),
        final(mids)@.len() <= old(mids)@.len() + 3 * faces@.len(),
        faces_below(r@, CORNERS + final(mids)@.len()),
        parents_first(final(mids)@),
{
    let ghost m0 = mids@;
    let mut out: Vec<Face> = Vec::new();
    let n = faces.len();
    for i in 0..n
        invariant
            n == faces@.len(),
            table_ok(index@, mids@),
            CORNERS + m0.len() + 3 * faces@.len() <= u32::MAX,
            faces_below(faces@, CORNERS + m0.len()),
            (out@, mids@) == subdivide(faces@.take(i as int), m0),
            out@.len() == 4 * i,
            m0.len() <= mids@.len() <= m0.len() + 3 * i,
            faces_below(out@, CORNERS + mids@.len()),
            parents_first(mids@),
    {
        let (a, b, c) = faces[i];
        let ghost f = faces@[i as int];
        let ghost mstart = mids@;
        proof {
            assert(faces@.take(i + 1).drop_last() =~= faces@.take(i as int));
            assert(faces@.take(i + 1).last() == f);
        }
        let ab = midpoint(index, mids, a, b);
        let ghost m1 = mids@;
        let bc = midpoint(index, mids, b, c);
        let ghost m2 = mids@;
        let ca = midpoint(index, mids, c, a);
        proof {
            let m3 = mids@;
            lemma_with_edge_contains(mstart, edge_of(a, b));
            lemma_with_edge_keeps_index(m1, edge_of(a, b), edge_of(b, c));
            lemma_with_edge_keeps_index(m2, edge_of(a, b), edge_of(c, a));
            lemma_with_edge_contains(m1, edge_of(b, c));
            lemma_with_edge_keeps_index(m2, edge_of(b, c), edge_of(c, a));
            assert(ab == midpoint_vertex(m3, edge_of(a, b)));
            assert(bc == midpoint_vertex(m3, edge_of(b, c)));
            assert(m3 == with_face_edges(mstart, f));
            assert forall|k: int| 0 <= k < m3.len() implies (#[trigger] m3[k]).0 <= m3[k].1 && m3[k].1 < CORNERS + k by {
                if k >= mstart.len() {
                    assert(a < CORNERS + mstart.len() && b < CORNERS + mstart.len() && c < CORNERS + mstart.len());
                    if k < m1.len() {
                        assert(m1[k] == edge_of(a, b));
                    } else if k < m2.len() {
                        assert(m2[k] == edge_of(b, c));
                    } else {
                        assert(m3[k] == edge_of(c, a));
                    }
                } else {
                    assert(m3[k] == mstart[k]);
                }
            }
        }
        let ghost out_before = out@;
        out.push((a, ab, ca));
        out.push((b, bc, ab));
        out.push((c, ca, bc));
        out.push((ab, bc, ca));
        proof {
            assert(out@ =~= out_before + split_face(mids@, f));
            assert forall|j: int| 0 <= j < out@.len() implies (#[trigger] out@[j]).0 < CORNERS + mids@.len()
                && out@[j].1 < CORNERS + mids@.len() && out@[j].2 < CORNERS + mids@.len() by {
                if j < out_before.len() {
                    assert(out@[j] == out_before[j]);
                }
            }
        }
    }
    assert(faces@.take(n as int) =~= faces@);
    out
}

/// Faces and midpoint parents of the icosahedron subdivided `subdivisions`
/// times: `20 * 4^s` triangles, each midpoint vertex created once.  Thirteen
/// subdivisions at most, so that every vertex index fits in 32 bits.
pub fn generate_icosphere(subdivisions: u32) -> (r: IcosphereTopology)
    requires
        subdivisions <= 13,
    ensures
        (r.faces@, r.midpoints@) == icosphere(subdivisions as nat),
        r.faces@.len() == 20 * pow4(subdivisions as nat),
        faces_below(r.faces@, CORNERS + r.midpoints@.len()),
        parents_first(r.midpoints@),
        r.midpoints@.no_duplicates(),
{
    let mut faces = icosahedron_faces();
    let mut index: HashMap<u64, u32> = HashMap::new();
    let mut mids: Vec<Edge> = Vec::new();
    let mut level: u32 = 0;
    proof {
        assert(faces_below(faces@, CORNERS as int));
        lemma_pow4_bound(13);
    }
    while level < subdivisions
        invariant
            level <= subdivisions <= 13,
            (faces@, mids@) == icosphere(level as nat),
            faces@.len() == 20 * pow4(level as nat),
            mids@.len() <= 20 * (pow4(level as nat) - 1),
            table_ok(index@, mids@),
            faces_below(faces@, CORNERS + mids@.len()),
            parents_first(mids@),
        decreases subdivisions - level,
    {
        proof {
            lemma_pow4_monotone(level as nat + 1, 13);
            lemma_pow4_bound(13);
            assert(pow4(level as nat + 1) == 4 * pow4(level as nat));
        }
        let next = subdivide_once(&faces, &mut index, &mut mids);
        faces = next;
        level = level + 1;
    }
    IcosphereTopology { faces, midpoints: mids }
}

proof fn lemma_pow4_bound(n: nat)
    requires
        n == 13,
    ensures
        pow4(n) == 67108864,
{
    reveal_with_fuel(pow4, 14);
}

proof fn lemma_pow4_monotone(a: nat, b: nat)
    requires
        a <= b,
    ensures
        1 <= pow4(a) <= pow4(b),
    decreases b,
{
    if b > 0 {
        if a < b {
            lemma_pow4_monotone(a, (b - 1) as nat);
        } else {
            lemma_pow4_monotone((a - 1) as nat, (b - 1) as nat);
        }
    }
}

} // verus!
