//! Manifest of authored texture pages and the set of pages made resident.
//!
//! Pages live in `<root>/face_<f>/lod<l>_<x>_<y>/textures/`.  Directory names
//! are parsed here; the file system walk happens outside the library.
use vstd::prelude::*;

use crate::text::{
    chars_of, lower_all, starts_with, contains, parse_u8, split_underscore_exec, lower_seq, starts_with_seq,
    contains_seq, parse_u8_spec, split_underscore, tail_from,
};

verus! {

/// The pages of `pages` on face `face`, in order.
pub open spec fn pages_of_face(pages: Seq<PlanetPatchPageMeta>, face: u8) -> Seq<PlanetPatchPageMeta>
    decreases pages.len(),
{
    if pages.len() == 0 {
        Seq::empty()
    } else {
        let rest = pages_of_face(pages.drop_last(), face);
        if pages.last().id.face == face {
            rest.push(pages.last())
        } else {
            rest
        }
    }
}

/// Identifies one texture page.
#[derive(Clone, Copy, Debug, PartialEq, Eq, Hash, PartialOrd, Ord, Structural)]
pub struct PlanetPatchId {
    pub face: u8,
    pub lod: u8,
    pub tile_x: u8,
    pub tile_y: u8,
}

impl PlanetPatchId {
    pub fn new(face: u8, lod: u8, tile_x: u8, tile_y: u8) -> (r: PlanetPatchId)
        ensures
            r == (PlanetPatchId { face, lod, tile_x, tile_y }),
    {
        PlanetPatchId { face, lod, tile_x, tile_y }
    }
}

/// Lexicographic order on (face, lod, tile_x, tile_y), as the derived `Ord`.
pub open spec fn id_lt(a: PlanetPatchId, b: PlanetPatchId) -> bool {
    if a.face != b.face {
        a.face < b.face
    } else if a.lod != b.lod {
        a.lod < b.lod
    } else if a.tile_x != b.tile_x {
        a.tile_x < b.tile_x
    } else {
        a.tile_y < b.tile_y
    }
}

/// What a texture file holds, guessed from its name.
#[derive(Clone, Copy, Debug, PartialEq, Eq, Hash, Structural)]
pub enum PatchTextureSemantic {
    Albedo,
    Normal,
    Material,
    Roughness,
    Other,
}

/// Classification of a lowercased file name by the first matching keyword group.
pub open spec fn semantic_of(lower: Seq<char>) -> PatchTextureSemantic {
    if contains_seq(lower, "albedo"@) || contains_seq(lower, "basecolor"@) || contains_seq(lower, "diffuse"@) {
        PatchTextureSemantic::Albedo
    } else if contains_seq(lower, "normal"@) {
        PatchTextureSemantic::Normal
    } else if contains_seq(lower, "material"@) || contains_seq(lower, "mask"@) {
        PatchTextureSemantic::Material
    } else if contains_seq(lower, "rough"@) || contains_seq(lower, "metal"@) {
        PatchTextureSemantic::Roughness
    } else {
        PatchTextureSemantic::Other
    }
}

impl PatchTextureSemantic {
    /// Guesses the semantic from a file name (case-insensitive keyword match).
    pub fn from_filename(name: &str) -> (r: PatchTextureSemantic)
        ensures
            r == semantic_of(lower_seq(name@)),
    {
        let lower = lower_all(&chars_of(name));
        if contains(&lower, &chars_of("albedo")) || contains(&lower, &chars_of("basecolor")) || contains(
            &lower,
            &chars_of("diffuse"),
        ) {
            PatchTextureSemantic::Albedo
        } else if contains(&lower, &chars_of("normal")) {
            PatchTextureSemantic::Normal
        } else if contains(&lower, &chars_of("material")) || contains(&lower, &chars_of("mask")) {
            PatchTextureSemantic::Material
        } else if contains(&lower, &chars_of("rough")) || contains(&lower, &chars_of("metal")) {
            PatchTextureSemantic::Roughness
        } else {
            PatchTextureSemantic::Other
        }
    }
}

/// Face index of a `face_<n>` directory name (prefix case-insensitive).
pub open spec fn face_dir_spec(name: Seq<char>) -> Option<u8> {
    let lower = lower_seq(name);
    if !starts_with_seq(lower, "face_"@) {
        None
    } else {
        parse_u8_spec(lower.subrange(5, lower.len() as int))
    }
}

/// `(lod, tile_x, tile_y)` of a `lod<l>_<x>_<y>` directory name: the first
/// three `_`-separated parts; the first must start with `lod` in any case.
/// Further parts are ignored.
pub open spec fn lod_dir_spec(name: Seq<char>) -> Option<(u8, u8, u8)> {
    let (p0, r1) = split_underscore(name);
    if !starts_with_seq(lower_seq(p0), "lod"@) {
        None
    } else {
        match parse_u8_spec(p0.subrange(3, p0.len() as int)) {
            None => None,
            Some(lod) => match r1 {
                None => None,
                Some(rest1) => {
                    let (p1, r2) = split_underscore(rest1);
                    match parse_u8_spec(p1) {
                        None => None,
                        Some(x) => match r2 {
                            None => None,
                            Some(rest2) => {
                                let (p2, _) = split_underscore(rest2);
                                match parse_u8_spec(p2) {
                                    None => None,
                                    Some(y) => Some((lod, x, y)),
                                }
                            },
                        },
                    }
                },
            },
        }
    }
}

/// Parses a face directory name such as `face_3` or `FACE_03`.
pub fn parse_face_dir(name: &str) -> (r: Option<u8>)
    ensures
        r == face_dir_spec(name@),
{
    let lower = lower_all(&chars_of(name));
    let prefix = chars_of("face_");
    if !starts_with(&lower, &prefix) {
        return None;
    }
    proof {
        reveal_strlit("face_");
        assert(prefix@.len() == 5);
    }
    let rest = tail_from(&lower, 5);
    parse_u8(&rest)
}

/// Parses a level directory name such as `lod2_1_3`.
pub fn parse_lod_dir(name: &str) -> (r: Option<(u8, u8, u8)>)
    ensures
        r == lod_dir_spec(name@),
{
    let chars = chars_of(name);
    let (p0, r1) = split_underscore_exec(&chars);
    let prefix = chars_of("lod");
    proof {
        reveal_strlit("lod");
        assert(prefix@.len() == 3);
    }
    if !starts_with(&lower_all(&p0), &prefix) {
        return None;
    }
    proof {
        assert(lower_seq(p0@).len() == p0@.len());
    }
    let lod = match parse_u8(&tail_from(&p0, 3)) {
        Some(v) => v,
        None => return None,
    };
    let rest1 = match r1 {
        Some(v) => v,
        None => return None,
    };
    let (p1, r2) = split_underscore_exec(&rest1);
    let tile_x = match parse_u8(&p1) {
        Some(v) => v,
        None => return None,
    };
    let rest2 = match r2 {
        Some(v) => v,
        None => return None,
    };
    let (p2, _) = split_underscore_exec(&rest2);
    let tile_y = match parse_u8(&p2) {
        Some(v) => v,
        None => return None,
    };
    Some((lod, tile_x, tile_y))
}

/// One texture of a page.
#[derive(Clone, Debug)]
pub struct PatchTextureFile {
    pub semantic: PatchTextureSemantic,
    pub asset_path: String,
}

/// A page and its textures.
#[derive(Clone, Debug)]
pub struct PlanetPatchPageMeta {
    pub id: PlanetPatchId,
    pub textures: Vec<PatchTextureFile>,
}

/// `s` with every `\` replaced by `/`.
pub open spec fn forward_slashes(s: Seq<char>) -> Seq<char> {
    s.map_values(|c: char| if c == '\\' { '/' } else { c })
}

/// Calls `str::replace` to turn backslashes into forward slashes.  Trusted:
/// the result is `s` with each `\` replaced by `/`, as the documentation of
/// `str::replace` states for a one-character pattern and replacement.
#[verifier::external_body]
pub(crate) fn replace_backslashes(s: &str) -> (r: String)
    ensures
        r@ == forward_slashes(s@),
{
    s.replace('\\', "/")
}

/// Builds the page for a scanned level directory: `face_name` and `lod_name`
/// are the directory names, `files` the `(file name, path relative to the
/// asset root)` pairs found in its `textures` directory.  `None` when a name
/// does not parse or no texture was found.
pub fn page_from_scan(face_name: &str, lod_name: &str, files: &Vec<(String, String)>) -> (r: Option<
    PlanetPatchPageMeta,
>)
    ensures
        r is Some <==> (face_dir_spec(face_name@) is Some && lod_dir_spec(lod_name@) is Some && files@.len() > 0),
        r matches Some(page) ==> {
            &&& page.id.face == face_dir_spec(face_name@).unwrap()
            &&& page.id.lod == lod_dir_spec(lod_name@).unwrap().0
            &&& page.id.tile_x == lod_dir_spec(lod_name@).unwrap().1
            &&& page.id.tile_y == lod_dir_spec(lod_name@).unwrap().2
            &&& page.textures@.len() == files@.len()
            &&& forall|i: int|
                0 <= i < files@.len() ==> {
                    &&& (#[trigger] page.textures@[i]).semantic == semantic_of(lower_seq(files@[i].0@))
                    &&& page.textures@[i].asset_path@ == forward_slashes(files@[i].1@)
                }
        },
{
    let face = match parse_face_dir(face_name) {
        Some(f) => f,
        None => return None,
    };
    let (lod, tile_x, tile_y) = match parse_lod_dir(lod_name) {
        Some(t) => t,
        None => return None,
    };
    let mut textures: Vec<PatchTextureFile> = Vec::new();
    let n = files.len();
    for i in 0..n
        invariant
            n == files@.len(),
            textures@.len() == i,
            forall|j: int|
                0 <= j < i ==> {
                    &&& (#[trigger] textures@[j]).semantic == semantic_of(lower_seq(files@[j].0@))
                    &&& textures@[j].asset_path@ == forward_slashes(files@[j].1@)
                },
    {
        let file = &files[i];
        let semantic = PatchTextureSemantic::from_filename(file.0.as_str());
        let asset_path = replace_backslashes(file.1.as_str());
        textures.push(PatchTextureFile { semantic, asset_path });
    }
    if textures.len() == 0 {
        return None;
    }
    Some(PlanetPatchPageMeta { id: PlanetPatchId::new(face, lod, tile_x, tile_y), textures })
}

/// Pages in `s` are in non-decreasing id order.
pub open spec fn pages_sorted(s: Seq<PlanetPatchPageMeta>) -> bool {
    forall|i: int, j: int| 0 <= i < j < s.len() ==> !id_lt(#[trigger] s[j].id, #[trigger] s[i].id)
}

/// Position at which `x` goes into sorted `s`: after every page whose id is not greater.
pub open spec fn insert_position(s: Seq<PlanetPatchPageMeta>, x: PlanetPatchPageMeta) -> int
    decreases s.len(),
{
    if s.len() == 0 {
        0
    } else if id_lt(x.id, s.last().id) {
        insert_position(s.drop_last(), x)
    } else {
        s.len() as int
    }
}

/// Stable insertion sort by id: pages with equal ids keep their input order.
pub open spec fn stable_sorted(s: Seq<PlanetPatchPageMeta>) -> Seq<PlanetPatchPageMeta>
    decreases s.len(),
{
    if s.len() == 0 {
        s
    } else {
        let r = stable_sorted(s.drop_last());
        r.insert(insert_position(r, s.last()), s.last())
    }
}

/// The manifest: root directory and pages sorted by id.
pub struct PlanetPatchManifest {
    pub root: String,
    pub pages: Vec<PlanetPatchPageMeta>,
}

impl PlanetPatchManifest {
    /// Builds a manifest, sorting the pages by id (stably).
    pub fn from_pages(root: String, pages: Vec<PlanetPatchPageMeta>) -> (r: PlanetPatchManifest)
        ensures
            r.root == root,
            r.pages@ == stable_sorted(pages@),
            pages_sorted(r.pages@),
            r.pages@.to_multiset() == pages@.to_multiset(),
    {
        let mut input = pages;
        let ghost orig = input@;
        let n0 = input.len();
        let mut out: Vec<PlanetPatchPageMeta> = Vec::new();
        let mut taken: usize = 0;
        proof {
            assert(orig.take(0) =~= Seq::<PlanetPatchPageMeta>::empty());
            assert(out@ =~= Seq::<PlanetPatchPageMeta>::empty());
            broadcast use vstd::multiset::group_multiset_axioms;
            broadcast use vstd::seq_lib::group_to_multiset_ensures;
        }
        while input.len() > 0
            invariant
                n0 == orig.len(),
                orig == orig.take(taken as int) + input@,
                taken + input@.len() == orig.len(),
                out@ == stable_sorted(orig.take(taken as int)),
                pages_sorted(out@),
                out@.to_multiset() == orig.take(taken as int).to_multiset(),
            decreases input@.len(),
        {
            let ghost before_input = input@;
            let p = input.remove(0);
            let pos = find_insert_position(&out, &p);
            proof {
                assert(orig[taken as int] == p) by {
                    assert((orig.take(taken as int) + before_input)[taken as int] == before_input[0]);
                }
                let cur = orig.take(taken + 1);
                assert(cur.drop_last() =~= orig.take(taken as int));
                assert(cur.last() == p);
                lemma_insert_keeps_sorted(out@, p);
                lemma_insert_multiset(out@, pos as int, p);
                orig.take(taken as int).to_multiset_ensures();
                assert(cur =~= orig.take(taken as int).push(p));
            }
            out.insert(pos, p);
            taken += 1;
            proof {
                assert(orig =~= orig.take(taken as int) + input@);
            }
        }
        proof {
            assert(orig.take(taken as int) =~= orig);
        }
        PlanetPatchManifest { root, pages: out }
    }

    /// The page with id `id` (the first one, should several share it).
    pub fn page(&self, id: &PlanetPatchId) -> (r: Option<&PlanetPatchPageMeta>)
        ensures
            r is None <==> forall|i: int| 0 <= i < self.pages@.len() ==> (#[trigger] self.pages@[i]).id != *id,
            r matches Some(p) ==> exists|i: int|
                0 <= i < self.pages@.len() && *p == self.pages@[i] && p.id == *id && forall|j: int|
                    0 <= j < i ==> (#[trigger] self.pages@[j]).id != *id,
    {
        let n = self.pages.len();
        for i in 0..n
            invariant
                n == self.pages@.len(),
                forall|j: int| 0 <= j < i ==> (#[trigger] self.pages@[j]).id != *id,
        {
            if self.pages[i].id == *id {
                return Some(&self.pages[i]);
            }
        }
        None
    }

    /// The pages of face `face`, in manifest order.
    pub fn pages_for_face(&self, face: u8) -> (r: Vec<&PlanetPatchPageMeta>)
        ensures
            r@.len() == pages_of_face(self.pages@, face).len(),
            forall|j: int| 0 <= j < r@.len() ==> *(#[trigger] r@[j]) == pages_of_face(self.pages@, face)[j],
    {
        let mut out: Vec<&PlanetPatchPageMeta> = Vec::new();
        let n = self.pages.len();
        for i in 0..n
            invariant
                n == self.pages@.len(),
                out@.len() == pages_of_face(self.pages@.take(i as int), face).len(),
                forall|j: int| 0 <= j < out@.len() ==> *(#[trigger] out@[j]) == pages_of_face(
                    self.pages@.take(i as int),
                    face,
                )[j],
        {
            let ghost t = self.pages@.take(i + 1);
            assert(t.drop_last() =~= self.pages@.take(i as int));
            let page = &self.pages[i];
            if page.id.face == face {
                out.push(page);
            }
        }
        assert(self.pages@.take(n as int) =~= self.pages@);
        out
    }

    /// Number of pages.
    pub fn page_count(&self) -> (r: usize)
        ensures
            r == self.pages@.len(),
    {
        self.pages.len()
    }
}

/// Finds where `p` goes into the sorted `out`.
fn find_insert_position(out: &Vec<PlanetPatchPageMeta>, p: &PlanetPatchPageMeta) -> (r: usize)
    ensures
        r == insert_position(out@, *p),
        r <= out@.len(),
{
    let mut i = out.len();
    assert(out@.take(i as int) =~= out@);
    while i > 0 && id_less(&p.id, &out[i - 1].id)
        invariant
            i <= out@.len(),
            insert_position(out@, *p) == insert_position(out@.take(i as int), *p),
        decreases i,
    {
        proof {
            let t = out@.take(i as int);
            assert(t.drop_last() =~= out@.take(i - 1));
        }
        i -= 1;
    }
    proof {
        let t = out@.take(i as int);
        if i > 0 {
            assert(!id_lt(p.id, t.last().id));
        }
        lemma_insert_position_bound(t, *p);
    }
    i
}

/// `a` sorts strictly before `b`.
pub fn id_less(a: &PlanetPatchId, b: &PlanetPatchId) -> (r: bool)
    ensures
        r == id_lt(*a, *b),
{
    if a.face != b.face {
        a.face < b.face
    } else if a.lod != b.lod {
        a.lod < b.lod
    } else if a.tile_x != b.tile_x {
        a.tile_x < b.tile_x
    } else {
        a.tile_y < b.tile_y
    }
}

proof fn lemma_insert_position_bound(s: Seq<PlanetPatchPageMeta>, x: PlanetPatchPageMeta)
    ensures
        0 <= insert_position(s, x) <= s.len(),
    decreases s.len(),
{
    if s.len() > 0 && id_lt(x.id, s.last().id) {
        lemma_insert_position_bound(s.drop_last(), x);
    }
}

/// For sorted `s`, pages before the insert position are not greater than `x`
/// and pages from it on are greater.
proof fn lemma_insert_position_split(s: Seq<PlanetPatchPageMeta>, x: PlanetPatchPageMeta)
    requires
        pages_sorted(s),
    ensures
        0 <= insert_position(s, x) <= s.len(),
        forall|j: int| 0 <= j < insert_position(s, x) ==> !id_lt(x.id, #[trigger] s[j].id),
        forall|j: int| insert_position(s, x) <= j < s.len() ==> id_lt(x.id, #[trigger] s[j].id),
    decreases s.len(),
{
    if s.len() > 0 {
        let d = s.drop_last();
        assert(pages_sorted(d));
        lemma_insert_position_split(d, x);
        if id_lt(x.id, s.last().id) {
            assert forall|j: int| 0 <= j < insert_position(s, x) implies !id_lt(x.id, #[trigger] s[j].id) by {
                assert(s[j] == d[j]);
            }
            assert forall|j: int| insert_position(s, x) <= j < s.len() implies id_lt(x.id, #[trigger] s[j].id) by {
                if j < s.len() - 1 {
                    assert(s[j] == d[j]);
                }
            }
        } else {
            assert forall|j: int| 0 <= j < s.len() implies !id_lt(x.id, #[trigger] s[j].id) by {
                if j < s.len() - 1 {
                    assert(!id_lt(s[s.len() - 1].id, s[j].id));
                    lemma_id_lt_trans_le(x.id, s[j].id, s[s.len() - 1].id);
                }
            }
        }
    }
}

/// With `a` not after `b` and `x` not before `b`, `x` is not before `a`.
proof fn lemma_id_lt_trans_le(x: PlanetPatchId, a: PlanetPatchId, b: PlanetPatchId)
    requires
        !id_lt(b, a),
        !id_lt(x, b),
    ensures
        !id_lt(x, a),
{
}

proof fn lemma_insert_keeps_sorted(s: Seq<PlanetPatchPageMeta>, x: PlanetPatchPageMeta)
    requires
        pages_sorted(s),
    ensures
        pages_sorted(s.insert(insert_position(s, x), x)),
{
    lemma_insert_position_split(s, x);
    let p = insert_position(s, x);
    let r = s.insert(p, x);
    assert forall|i: int, j: int| 0 <= i < j < r.len() implies !id_lt(#[trigger] r[j].id, #[trigger] r[i].id) by {
        if i < p && j < p {
            assert(r[i] == s[i] && r[j] == s[j]);
        } else if i < p && j == p {
            assert(r[i] == s[i]);
        } else if i < p {
            assert(r[i] == s[i] && r[j] == s[j - 1]);
        } else if i == p {
            assert(r[j] == s[j - 1]);
        } else {
            assert(r[i] == s[i - 1] && r[j] == s[j - 1]);
        }
    }
}

proof fn lemma_insert_multiset(s: Seq<PlanetPatchPageMeta>, p: int, x: PlanetPatchPageMeta)
    requires
        0 <= p <= s.len(),
    ensures
        s.insert(p, x).to_multiset() == s.to_multiset().insert(x),
{
    broadcast use vstd::multiset::group_multiset_axioms;
    let r = s.insert(p, x);
    r.to_multiset_ensures();
    assert(r.remove(p) =~= s);
    assert(r[p] == x);
    assert(r.contains(x));
    assert(s.to_multiset() == r.to_multiset().remove(x));
    assert(s.to_multiset().insert(x) =~= r.to_multiset());
}


/// Outcome of asking for a page to be resident.
#[derive(Clone, Copy, Debug, PartialEq, Eq, Structural)]
pub enum PageResidency {
    /// Its textures were requested before.
    Resident,
    /// Just became resident: the caller loads its textures now.
    NewlyResident,
    /// The manifest has no such page.
    NotInManifest,
}

/// The manifest and the pages whose textures have been requested.
pub struct PlanetPatchCache {
    manifest: PlanetPatchManifest,
    resident: Vec<PlanetPatchId>,
}

/// Whether the manifest pages include one with id `id`.
pub open spec fn has_page(pages: Seq<PlanetPatchPageMeta>, id: PlanetPatchId) -> bool {
    exists|i: int| 0 <= i < pages.len() && (#[trigger] pages[i]).id == id
}

impl PlanetPatchCache {
    /// Ids of the resident pages, in the order they became resident.
    pub closed spec fn resident_view(&self) -> Seq<PlanetPatchId> {
        self.resident@
    }

    /// The pages of the manifest.
    pub closed spec fn pages_view(&self) -> Seq<PlanetPatchPageMeta> {
        self.manifest.pages@
    }

    /// No page is resident twice, and every resident page is in the manifest.
    pub open spec fn wf(&self) -> bool {
        &&& self.resident_view().no_duplicates()
        &&& forall|i: int| 0 <= i < self.resident_view().len() ==> has_page(self.pages_view(), #[trigger] self.resident_view()[i])
    }

    /// A cache over `manifest` with nothing resident.
    pub fn new(manifest: PlanetPatchManifest) -> (r: PlanetPatchCache)
        ensures
            r.wf(),
            r.pages_view() == manifest.pages@,
            r.resident_view() == Seq::<PlanetPatchId>::empty(),
    {
        PlanetPatchCache { manifest, resident: Vec::new() }
    }

    /// The manifest.
    pub fn manifest(&self) -> (r: &PlanetPatchManifest)
        ensures
            r.pages@ == self.pages_view(),
    {
        &self.manifest
    }

    /// Number of resident pages.
    pub fn resident_count(&self) -> (r: usize)
        ensures
            r == self.resident_view().len(),
    {
        self.resident.len()
    }

    /// Whether page `id` is resident.
    pub fn is_resident(&self, id: &PlanetPatchId) -> (r: bool)
        ensures
            r == self.resident_view().contains(*id),
    {
        let n = self.resident.len();
        for i in 0..n
            invariant
                n == self.resident@.len(),
                forall|j: int| 0 <= j < i ==> self.resident@[j] != *id,
        {
            if self.resident[i] == *id {
                assert(self.resident@[i as int] == *id);
                return true;
            }
        }
        false
    }

    /// Makes page `id` resident if the manifest has it.
    pub fn ensure_page(&mut self, id: PlanetPatchId) -> (r: PageResidency)
        requires
            old(self).wf(),
        ensures
            final(self).wf(),
            final(self).pages_view() == old(self).pages_view(),
            r == (if old(self).resident_view().contains(id) {
                PageResidency::Resident
            } else if has_page(old(self).pages_view(), id) {
                PageResidency::NewlyResident
            } else {
                PageResidency::NotInManifest
            }),
            final(self).resident_view() == if r == PageResidency::NewlyResident {
                old(self).resident_view().push(id)
            } else {
                old(self).resident_view()
            },
            (r != PageResidency::NotInManifest) <==> has_page(old(self).pages_view(), id),
            final(self).resident_view().contains(id) <==> has_page(old(self).pages_view(), id),
    {
        if self.is_resident(&id) {
            proof {
                let w = choose|w: int| 0 <= w < self.resident@.len() && self.resident@[w] == id;
                assert(has_page(self.pages_view(), self.resident_view()[w]));
            }
            return PageResidency::Resident;
        }
        match self.manifest.page(&id) {
            None => {
                proof {
                    assert(!has_page(self.pages_view(), id));
                }
                PageResidency::NotInManifest
            },
            Some(_) => {
                let ghost before = self.resident@;
                self.resident.push(id);
                proof {
                    lemma_push_unique_ids(before, id);
                    assert(has_page(self.pages_view(), id));
                    assert forall|i: int| 0 <= i < self.resident_view().len() implies has_page(
                        self.pages_view(),
                        #[trigger] self.resident_view()[i],
                    ) by {
                        if i < before.len() {
                            assert(self.resident_view()[i] == before[i]);
                        }
                    }
                    assert(self.resident@[before.len() as int] == id);
                }
                PageResidency::NewlyResident
            },
        }
    }

    /// Makes every page of face `face` resident; returns the ids that just
    /// became resident, in manifest order.
    pub fn preload_face(&mut self, face: u8) -> (r: Vec<PlanetPatchId>)
        requires
            old(self).wf(),
        ensures
            final(self).wf(),
            final(self).pages_view() == old(self).pages_view(),
            final(self).resident_view() == old(self).resident_view() + r@,
            forall|j: int| 0 <= j < r@.len() ==> (#[trigger] r@[j]).face == face && has_page(old(self).pages_view(), r@[j]),
            forall|i: int|
                0 <= i < old(self).pages_view().len() && (#[trigger] old(self).pages_view()[i]).id.face == face
                    ==> final(self).resident_view().contains(old(self).pages_view()[i].id),
            r@ == newly_resident(old(self).pages_view(), face, old(self).resident_view()),
    {
        let ghost start = self.resident@;
        let ghost pages = self.manifest.pages@;
        let mut ids: Vec<PlanetPatchId> = Vec::new();
        let n = self.manifest.pages.len();
        for i in 0..n
            invariant
                n == pages.len(),
                pages == self.manifest.pages@,
                self.wf(),
                self.resident@ == start + ids@,
                ids@ == newly_resident(pages.take(i as int), face, start),
                forall|j: int| 0 <= j < ids@.len() ==> (#[trigger] ids@[j]).face == face && has_page(pages, ids@[j]),
                forall|m: int| 0 <= m < i && (#[trigger] pages[m]).id.face == face ==> self.resident@.contains(pages[m].id),
        {
            let id = self.manifest.pages[i].id;
            proof {
                let t = pages.take(i + 1);
                assert(t.drop_last() =~= pages.take(i as int));
                assert(t.last().id == id);
            }
            if id.face == face {
                let ghost before = self.resident@;
                let ghost ids_before = ids@;
                assert(has_page(pages, id)) by {
                    assert(pages[i as int].id == id);
                }
                let outcome = self.ensure_page(id);
                if outcome == PageResidency::NewlyResident {
                    ids.push(id);
                }
                proof {
                    assert(self.resident@ =~= start + ids@);
                    assert(self.resident@.contains(id)) by {
                        if before.contains(id) {
                            let w = choose|w: int| 0 <= w < before.len() && before[w] == id;
                            assert(self.resident@[w] == id);
                        } else {
                            assert(self.resident@[before.len() as int] == id);
                        }
                    }
                    assert forall|m: int| 0 <= m < i + 1 && (#[trigger] pages[m]).id.face == face implies self.resident@.contains(pages[m].id) by {
                        if m < i && before.contains(pages[m].id) {
                            let w = choose|w: int| 0 <= w < before.len() && before[w] == pages[m].id;
                            assert(self.resident@[w] == pages[m].id);
                        }
                    }
                }
            }
        }
        assert(pages.take(n as int) =~= pages);
        ids
    }
}

/// The ids of `pages` on face `face` that are not yet resident, in page
/// order, each once: what preloading the face makes newly resident.
pub open spec fn newly_resident(pages: Seq<PlanetPatchPageMeta>, face: u8, resident: Seq<PlanetPatchId>) -> Seq<
    PlanetPatchId,
>
    decreases pages.len(),
{
    if pages.len() == 0 {
        Seq::empty()
    } else {
        let rest = newly_resident(pages.drop_last(), face, resident);
        let id = pages.last().id;
        if id.face == face && !(resident + rest).contains(id) {
            rest.push(id)
        } else {
            rest
        }
    }
}

/// After preloading, every page of the face is resident.
proof fn lemma_face_pages_covered(pages: Seq<PlanetPatchPageMeta>, face: u8, resident: Seq<PlanetPatchId>)
    ensures
        forall|i: int|
            0 <= i < pages.len() && (#[trigger] pages[i]).id.face == face ==> (resident + newly_resident(
                pages,
                face,
                resident,
            )).contains(pages[i].id),
    decreases pages.len(),
{
    if pages.len() > 0 {
        let p0 = pages.drop_last();
        lemma_face_pages_covered(p0, face, resident);
        let rest = newly_resident(p0, face, resident);
        let all = newly_resident(pages, face, resident);
        assert forall|i: int| 0 <= i < pages.len() && (#[trigger] pages[i]).id.face == face implies (resident
            + all).contains(pages[i].id) by {
            if i < pages.len() - 1 {
                assert(p0[i] == pages[i]);
                let w = choose|w: int| 0 <= w < (resident + rest).len() && (resident + rest)[w] == pages[i].id;
                if w < resident.len() {
                    assert((resident + all)[w] == pages[i].id);
                } else {
                    assert((resident + all)[w] == (resident + rest)[w]);
                }
            } else {
                let id = pages.last().id;
                if (resident + rest).contains(id) {
                    let w = choose|w: int| 0 <= w < (resident + rest).len() && (resident + rest)[w] == id;
                    if w < resident.len() {
                        assert((resident + all)[w] == id);
                    } else {
                        assert((resident + all)[w] == (resident + rest)[w]);
                    }
                } else {
                    assert((resident + all)[(resident + all).len() - 1] == id);
                }
            }
        }
    }
}

/// Nothing is newly resident when every page of the face already is.
proof fn lemma_nothing_new_when_covered(pages: Seq<PlanetPatchPageMeta>, face: u8, resident: Seq<PlanetPatchId>)
    requires
        forall|i: int| 0 <= i < pages.len() && (#[trigger] pages[i]).id.face == face ==> resident.contains(pages[i].id),
    ensures
        newly_resident(pages, face, resident) == Seq::<PlanetPatchId>::empty(),
    decreases pages.len(),
{
    if pages.len() > 0 {
        let p0 = pages.drop_last();
        assert forall|i: int| 0 <= i < p0.len() && (#[trigger] p0[i]).id.face == face implies resident.contains(
            p0[i].id,
        ) by {
            assert(p0[i] == pages[i]);
        }
        lemma_nothing_new_when_covered(p0, face, resident);
        assert(resident + Seq::<PlanetPatchId>::empty() =~= resident);
        if pages.last().id.face == face {
            assert(pages[pages.len() - 1] == pages.last());
        }
    }
}

/// Preloading a face a second time makes nothing newly resident.
pub proof fn lemma_preload_face_idempotent(pages: Seq<PlanetPatchPageMeta>, face: u8, resident: Seq<PlanetPatchId>)
    ensures
        newly_resident(pages, face, resident + newly_resident(pages, face, resident))
            == Seq::<PlanetPatchId>::empty(),
{
    lemma_face_pages_covered(pages, face, resident);
    lemma_nothing_new_when_covered(pages, face, resident + newly_resident(pages, face, resident));
}

proof fn lemma_push_unique_ids(s: Seq<PlanetPatchId>, k: PlanetPatchId)
    requires
        s.no_duplicates(),
        !s.contains(k),
    ensures
        s.push(k).no_duplicates(),
{
    assert forall|i: int, j: int| 0 <= i < s.push(k).len() && 0 <= j < s.push(k).len() && i != j implies s.push(
        k,
    )[i] != s.push(k)[j] by {
        if i < s.len() && j < s.len() {
        } else if i < s.len() {
            assert(s.contains(s[i]));
        } else {
            assert(s.contains(s[j]));
        }
    }
}

/// How a texture file name is classified, ignoring case: a name holding
/// `albedo`, `basecolor` or `diffuse` is an albedo map; otherwise one holding
/// `normal` is a normal map; otherwise one holding `material` or `mask` is a
/// material map; otherwise one holding `rough` or `metal` is a roughness
/// map; a name holding none of these words is something else.
pub proof fn lemma_texture_keywords(name: Seq<char>)
    ensures
        ({
            let l = lower_seq(name);
            let albedo = contains_seq(l, "albedo"@) || contains_seq(l, "basecolor"@) || contains_seq(l, "diffuse"@);
            let normal = contains_seq(l, "normal"@);
            let material = contains_seq(l, "material"@) || contains_seq(l, "mask"@);
            let rough = contains_seq(l, "rough"@) || contains_seq(l, "metal"@);
            &&& albedo ==> semantic_of(l) == PatchTextureSemantic::Albedo
            &&& !albedo && normal ==> semantic_of(l) == PatchTextureSemantic::Normal
            &&& !albedo && !normal && material ==> semantic_of(l) == PatchTextureSemantic::Material
            &&& !albedo && !normal && !material && rough ==> semantic_of(l) == PatchTextureSemantic::Roughness
            &&& !albedo && !normal && !material && !rough ==> semantic_of(l) == PatchTextureSemantic::Other
        }),
{
}

} // verus!
