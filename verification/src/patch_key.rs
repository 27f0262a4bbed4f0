//! Quadtree addressing of cube-sphere surface patches.
//!
//! A patch is named by the cube face it lies on, its subdivision level and its
//! integer tile coordinates on that level.  Level `n` splits a face into
//! `2^n x 2^n` tiles; a tile's four children on level `n + 1` double both
//! coordinates and add 0 or 1.
use vstd::prelude::*;

verus! {

/// Unique identifier for a surface patch in the quadtree.
#[derive(Clone, Copy, Debug, PartialEq, Eq, Hash, Structural)]
pub struct PatchKey {
    pub face: u8,
    pub level: u8,
    pub ix: u32,
    pub iy: u32,
}

/// Number of cube faces, each the root of one quadtree.
pub const ROOT_FACES: u8 = 6;

/// The key one level up that covers `k`, if `k` is not a root.
pub open spec fn parent_of(k: PatchKey) -> Option<PatchKey> {
    if k.level == 0 {
        None
    } else {
        Some(PatchKey { face: k.face, level: (k.level - 1) as u8, ix: k.ix >> 1u32, iy: k.iy >> 1u32 })
    }
}

/// The `i`-th child of `k` (0: low x low y, 1: high x, 2: high y, 3: both high).
/// Coordinates are doubled in 32-bit arithmetic, as the executable code does.
pub open spec fn child_at(k: PatchKey, i: int) -> PatchKey {
    let bx: u32 = if i == 1 || i == 3 { 1 } else { 0 };
    let by: u32 = if i == 2 || i == 3 { 1 } else { 0 };
    PatchKey {
        face: k.face,
        level: (k.level + 1) as u8,
        ix: ((k.ix << 1u32) + bx) as u32,
        iy: ((k.iy << 1u32) + by) as u32,
    }
}

/// The four children of `k`, in the order `children` returns them.
pub open spec fn children_of(k: PatchKey) -> Seq<PatchKey> {
    seq![child_at(k, 0), child_at(k, 1), child_at(k, 2), child_at(k, 3)]
}

/// `c` is one of the four children of `p`.
pub open spec fn is_child_of(c: PatchKey, p: PatchKey) -> bool {
    exists|i: int| 0 <= i < 4 && #[trigger] child_at(p, i) == c
}

/// The tile coordinates of `k` lie inside its face at its level.
pub open spec fn in_face_bounds(k: PatchKey) -> bool {
    k.ix < pow2_u64(k.level as nat) && k.iy < pow2_u64(k.level as nat)
}

/// `2^n` as a mathematical integer.
pub open spec fn pow2_u64(n: nat) -> int
    decreases n,
{
    if n == 0 {
        1
    } else {
        2 * pow2_u64((n - 1) as nat)
    }
}

impl PatchKey {
    /// The key one level up, or `None` for a face root (level 0).
    pub fn parent(self) -> (r: Option<PatchKey>)
        ensures
            r == parent_of(self),
    {
        if self.level == 0 {
            return None;
        }
        Some(PatchKey { face: self.face, level: self.level - 1, ix: self.ix >> 1, iy: self.iy >> 1 })
    }

    /// The four children one level down.  The level must leave room for one
    /// more subdivision (`u8` level arithmetic would overflow otherwise).
    pub fn children(self) -> (r: [PatchKey; 4])
        requires
            self.level < 255,
        ensures
            r@ == children_of(self),
    {
        let lvl = self.level + 1;
        let ix = self.ix << 1;
        let iy = self.iy << 1;
        proof {
            lemma_shl1_even(self.ix);
            lemma_shl1_even(self.iy);
        }
        let r = [
            PatchKey { face: self.face, level: lvl, ix, iy },
            PatchKey { face: self.face, level: lvl, ix: ix + 1, iy },
            PatchKey { face: self.face, level: lvl, ix, iy: iy + 1 },
            PatchKey { face: self.face, level: lvl, ix: ix + 1, iy: iy + 1 },
        ];
        assert(r@ =~= children_of(self));
        r
    }
}

/// Doubling in 32 bits always gives an even number, so adding one cannot overflow.
pub proof fn lemma_shl1_even(x: u32)
    ensures
        (x << 1u32) < 0xffff_ffffu32,
        (x << 1u32) % 2 == 0,
{
    assert((x << 1u32) < 0xffff_ffffu32 && (x << 1u32) % 2 == 0) by (bit_vector);
}

proof fn lemma_shr_shl_roundtrip(x: u32)
    requires
        x < 0x8000_0000u32,
    ensures
        (x << 1u32) >> 1u32 == x,
        (((x << 1u32) + 1) as u32) >> 1u32 == x,
{
    assert((x << 1u32) >> 1u32 == x) by (bit_vector)
        requires
            x < 0x8000_0000u32,
    ;
    assert((((x << 1u32) + 1) as u32) >> 1u32 == x) by (bit_vector)
        requires
            x < 0x8000_0000u32,
    ;
}

proof fn lemma_shl_shr_cover(x: u32)
    ensures
        (x >> 1u32) < 0x8000_0000u32,
        x % 2 == 0 ==> (x >> 1u32) << 1u32 == x,
        x % 2 == 1 ==> (((x >> 1u32) << 1u32) + 1) as u32 == x,
        ((x >> 1u32) << 1u32) < 0xffff_ffffu32,
{
    assert((x >> 1u32) < 0x8000_0000u32) by (bit_vector);
    assert(x % 2 == 0 ==> (x >> 1u32) << 1u32 == x) by (bit_vector);
    assert(x % 2 == 1 ==> (((x >> 1u32) << 1u32) + 1) as u32 == x) by (bit_vector);
    assert(((x >> 1u32) << 1u32) < 0xffff_ffffu32) by (bit_vector);
}

/// Going down to any child and back up returns the starting key, as long
/// as the level can grow and the doubled coordinates still fit in 32 bits.
pub proof fn lemma_child_parent_roundtrip(k: PatchKey, i: int)
    requires
        0 <= i < 4,
        k.level < 255,
        k.ix < 0x8000_0000u32,
        k.iy < 0x8000_0000u32,
    ensures
        parent_of(child_at(k, i)) == Some(k),
{
    lemma_shr_shl_roundtrip(k.ix);
    lemma_shr_shl_roundtrip(k.iy);
    lemma_shl1_even(k.ix);
    lemma_shl1_even(k.iy);
}

/// Every non-root key is one of the children of its parent.
pub proof fn lemma_parent_child_cover(k: PatchKey)
    requires
        k.level > 0,
    ensures
        parent_of(k) matches Some(p) && is_child_of(k, p),
{
    let p = parent_of(k).unwrap();
    lemma_shl_shr_cover(k.ix);
    lemma_shl_shr_cover(k.iy);
    let i: int = if k.ix % 2 == 0 {
        if k.iy % 2 == 0 { 0 } else { 2 }
    } else {
        if k.iy % 2 == 0 { 1 } else { 3 }
    };
    assert(child_at(p, i) == k);
}

/// The four children of a key are pairwise distinct and all one level deeper.
pub proof fn lemma_children_distinct(k: PatchKey)
    requires
        k.level < 255,
    ensures
        forall|i: int, j: int| 0 <= i < 4 && 0 <= j < 4 && i != j ==> child_at(k, i) != child_at(k, j),
        forall|i: int| 0 <= i < 4 ==> (#[trigger] child_at(k, i)).level == k.level + 1,
        forall|i: int| 0 <= i < 4 ==> (#[trigger] child_at(k, i)).face == k.face,
{
    lemma_shl1_even(k.ix);
    lemma_shl1_even(k.iy);
}

/// A child of a key inside its face is inside its face one level down.
pub proof fn lemma_child_in_bounds(k: PatchKey, i: int)
    requires
        0 <= i < 4,
        k.level < 31,
        in_face_bounds(k),
    ensures
        in_face_bounds(child_at(k, i)),
{
    lemma_pow2_bound(k.level as nat);
    lemma_shl1_even(k.ix);
    lemma_shl1_even(k.iy);
    let x = k.ix;
    let y = k.iy;
    assert(x < 0x8000_0000u32);
    assert(y < 0x8000_0000u32);
    assert((x << 1u32) == 2 * x) by (bit_vector)
        requires
            x < 0x8000_0000u32,
    ;
    assert((y << 1u32) == 2 * y) by (bit_vector)
        requires
            y < 0x8000_0000u32,
    ;
    assert(pow2_u64((k.level + 1) as nat) == 2 * pow2_u64(k.level as nat));
}

proof fn lemma_pow2_mono(n: nat, m: nat)
    requires
        n <= m,
    ensures
        1 <= pow2_u64(n) <= pow2_u64(m),
    decreases m,
{
    if m > n {
        lemma_pow2_mono(n, (m - 1) as nat);
    } else {
        lemma_pow2_pos(n);
    }
}

proof fn lemma_pow2_pos(n: nat)
    ensures
        1 <= pow2_u64(n),
    decreases n,
{
    if n > 0 {
        lemma_pow2_pos((n - 1) as nat);
    }
}

proof fn lemma_pow2_bound(n: nat)
    requires
        n < 31,
    ensures
        1 <= pow2_u64(n) <= 0x4000_0000,
{
    lemma_pow2_mono(n, 30);
    reveal_with_fuel(pow2_u64, 31);
}

/// A child of a key inside its face (below level 31) has that key as its
/// parent and lies inside the face one level down.
pub proof fn lemma_bounded_child_parent(k: PatchKey, i: int)
    requires
        0 <= i < 4,
        k.level < 31,
        in_face_bounds(k),
    ensures
        parent_of(child_at(k, i)) == Some(k),
        in_face_bounds(child_at(k, i)),
{
    lemma_pow2_bound(k.level as nat);
    lemma_child_parent_roundtrip(k, i);
    lemma_child_in_bounds(k, i);
}

/// The key `n` parent steps above `k`, if every step exists.
pub open spec fn ancestor(k: PatchKey, n: nat) -> Option<PatchKey>
    decreases n,
{
    if n == 0 {
        Some(k)
    } else {
        match ancestor(k, (n - 1) as nat) {
            Some(a) => parent_of(a),
            None => None,
        }
    }
}

proof fn lemma_pow2_positive(n: nat)
    ensures
        pow2_u64(n) > 0,
    decreases n,
{
    if n > 0 {
        lemma_pow2_positive((n - 1) as nat);
    }
}

/// Going up `n <= k.level` levels keeps the face, lowers the level by `n`
/// and divides both coordinates by `2^n`.
pub proof fn lemma_ancestor_coordinates(k: PatchKey, n: nat)
    requires
        n <= k.level,
    ensures
        ancestor(k, n) == Some(
            PatchKey {
                face: k.face,
                level: (k.level - n) as u8,
                ix: (k.ix as int / pow2_u64(n)) as u32,
                iy: (k.iy as int / pow2_u64(n)) as u32,
            },
        ),
    decreases n,
{
    if n == 0 {
        assert(k.ix as int / 1 == k.ix);
        assert(k.iy as int / 1 == k.iy);
    } else {
        let m = (n - 1) as nat;
        lemma_ancestor_coordinates(k, m);
        lemma_pow2_positive(m);
        let a = ancestor(k, m).unwrap();
        let x = a.ix;
        let y = a.iy;
        assert(x >> 1u32 == x / 2) by (bit_vector);
        assert(y >> 1u32 == y / 2) by (bit_vector);
        vstd::arithmetic::div_mod::lemma_div_denominator(k.ix as int, pow2_u64(m), 2);
        vstd::arithmetic::div_mod::lemma_div_denominator(k.iy as int, pow2_u64(m), 2);
        assert(pow2_u64(m) * 2 == pow2_u64(n));
        assert(k.ix as int / pow2_u64(m) <= k.ix) by {
            vstd::arithmetic::div_mod::lemma_div_is_ordered_by_denominator(k.ix as int, 1, pow2_u64(m));
        }
        assert(k.iy as int / pow2_u64(m) <= k.iy) by {
            vstd::arithmetic::div_mod::lemma_div_is_ordered_by_denominator(k.iy as int, 1, pow2_u64(m));
        }
    }
}

/// Every ancestor walk ends at a face root after exactly `k.level` steps:
/// that root is on `k`'s face with coordinates divided by `2^level`, and it
/// has no parent.
pub proof fn lemma_ancestors_reach_face_root(k: PatchKey)
    ensures
        ancestor(k, k.level as nat) == Some(
            PatchKey {
                face: k.face,
                level: 0,
                ix: (k.ix as int / pow2_u64(k.level as nat)) as u32,
                iy: (k.iy as int / pow2_u64(k.level as nat)) as u32,
            },
        ),
        ancestor(k, k.level as nat + 1) is None,
{
    lemma_ancestor_coordinates(k, k.level as nat);
}

} // verus!
