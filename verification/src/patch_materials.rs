//! Material identifiers of surface patches (`palette:<name>`,
//! `detail:amp=<x>`, `detail:scale=<x>`, `tex:<slot>=<path>`), the texture
//! formats that can be sampled with filtering, and the gizmos that stand in
//! for props.
use vstd::prelude::*;
use crate::text::{chars_of, contains, contains_seq, lower_all, lower_seq, starts_with, starts_with_seq, tail_from};
use crate::hashing::{fnv1a, hash_kind};
use vstd::string::StringSliceAdditionalSpecFns;

verus! {

/// Builds a `String` from its characters with `String::from_iter`.  Trusted:
/// the string holds exactly `chars`, in order, as `FromIterator<char>` for
/// `String` is documented to push each character in turn.
#[verifier::external_body]
pub(crate) fn string_from_chars(chars: &Vec<char>) -> (r: String)
    ensures
        r@ == chars@,
{
    chars.iter().collect()
}

/// Whether a material identifier names a palette.
pub open spec fn is_palette_id(id: Seq<char>) -> bool {
    starts_with_seq(id, "palette:"@)
}

/// `materials` with `palette:default` appended when no identifier names a palette.
pub open spec fn with_default_palette(materials: Seq<Seq<char>>) -> Seq<Seq<char>> {
    if exists|i: int| 0 <= i < materials.len() && is_palette_id(#[trigger] materials[i]) {
        materials
    } else {
        materials.push("palette:default"@)
    }
}

/// The identifiers of `v` as character sequences.
pub open spec fn ids_of(v: Seq<String>) -> Seq<Seq<char>> {
    v.map_values(|s: String| s@)
}

/// Whether any of `ids` names a palette.
fn has_palette(ids: &Vec<String>) -> (r: bool)
    ensures
        r == exists|i: int| 0 <= i < ids@.len() && is_palette_id(#[trigger] ids_of(ids@)[i]),
{
    let prefix = chars_of("palette:");
    let n = ids.len();
    for i in 0..n
        invariant
            n == ids@.len(),
            prefix@ == "palette:"@,
            forall|j: int| 0 <= j < i ==> !is_palette_id(#[trigger] ids_of(ids@)[j]),
    {
        let c = chars_of(ids[i].as_str());
        if starts_with(&c, &prefix) {
            assert(is_palette_id(ids_of(ids@)[i as int]));
            return true;
        }
    }
    false
}

/// Makes sure the identifiers name a palette: appends `palette:default` when
/// none does (an empty list included).
pub fn ensure_palette(materials: &mut Vec<String>)
    ensures
        ids_of(final(materials)@) == with_default_palette(ids_of(old(materials)@)),
{
    if !has_palette(materials) {
        let ghost before = materials@;
        materials.push("palette:default".to_owned());
        assert(ids_of(materials@) =~= ids_of(before).push("palette:default"@));
    }
}

/// The named palettes a `palette:` identifier can select.
#[derive(Clone, Copy, Debug, PartialEq, Eq, Hash, Structural)]
pub enum PaletteVariant {
    Default,
    Debug,
    Lush,
    Arid,
    Ice,
    Volcanic,
}

/// The palette called `name`: `default` (or nothing), `debug`, `lush`,
/// `arid` or `desert`, `ice` or `polar`, `volcanic`.
pub open spec fn palette_named(name: Seq<char>) -> Option<PaletteVariant> {
    if name == "default"@ || name.len() == 0 {
        Some(PaletteVariant::Default)
    } else if name == "debug"@ {
        Some(PaletteVariant::Debug)
    } else if name == "lush"@ {
        Some(PaletteVariant::Lush)
    } else if name == "arid"@ || name == "desert"@ {
        Some(PaletteVariant::Arid)
    } else if name == "ice"@ || name == "polar"@ {
        Some(PaletteVariant::Ice)
    } else if name == "volcanic"@ {
        Some(PaletteVariant::Volcanic)
    } else {
        None
    }
}

/// Whether two character vectors are equal.
fn same_chars(a: &Vec<char>, b: &Vec<char>) -> (r: bool)
    ensures
        r == (a@ == b@),
{
    if a.len() != b.len() {
        return false;
    }
    let n = a.len();
    for i in 0..n
        invariant
            n == a@.len(),
            n == b@.len(),
            forall|j: int| 0 <= j < i ==> a@[j] == b@[j],
    {
        if a[i] != b[i] {
            return false;
        }
    }
    assert(a@ =~= b@);
    true
}

/// Whether `name` spells the literal `lit`.
fn is_word(name: &Vec<char>, lit: &str) -> (r: bool)
    ensures
        r == (name@ == lit@),
{
    let w = chars_of(lit);
    same_chars(name, &w)
}

/// The palette a name selects, if any.
pub fn palette_variant(name: &Vec<char>) -> (r: Option<PaletteVariant>)
    ensures
        r == palette_named(name@),
{
    if is_word(name, "default") || name.len() == 0 {
        Some(PaletteVariant::Default)
    } else if is_word(name, "debug") {
        Some(PaletteVariant::Debug)
    } else if is_word(name, "lush") {
        Some(PaletteVariant::Lush)
    } else if is_word(name, "arid") || is_word(name, "desert") {
        Some(PaletteVariant::Arid)
    } else if is_word(name, "ice") || is_word(name, "polar") {
        Some(PaletteVariant::Ice)
    } else if is_word(name, "volcanic") {
        Some(PaletteVariant::Volcanic)
    } else {
        None
    }
}

/// What a material identifier asks of a patch material.
#[derive(Clone, Debug, PartialEq, Eq)]
pub enum MaterialDirective {
    /// Use a named palette.
    Palette(PaletteVariant),
    /// A `palette:` identifier with an unknown name: nothing changes.
    UnknownPalette,
    /// Set the detail amplitude to the number written after `detail:amp=`.
    DetailAmp(String),
    /// Set the detail scale to the number written after `detail:scale=`.
    DetailScale(String),
    /// Any other identifier: nothing changes.
    Other,
}

/// The prefix of a material identifier, and what follows it.
pub open spec fn rest_after(id: Seq<char>, prefix: Seq<char>) -> Seq<char> {
    id.subrange(prefix.len() as int, id.len() as int)
}

/// Reads a material identifier, by its prefix: `palette:` first, then
/// `detail:amp=`, then `detail:scale=`.  The numbers are read by the caller.
pub fn classify_identifier(id: &str) -> (r: MaterialDirective)
    ensures
        starts_with_seq(id@, "palette:"@) ==> match palette_named(rest_after(id@, "palette:"@)) {
            Some(p) => r == MaterialDirective::Palette(p),
            None => r == MaterialDirective::UnknownPalette,
        },
        !starts_with_seq(id@, "palette:"@) && starts_with_seq(id@, "detail:amp="@) ==> (r matches MaterialDirective::DetailAmp(v)
            && v@ == rest_after(id@, "detail:amp="@)),
        !starts_with_seq(id@, "palette:"@) && !starts_with_seq(id@, "detail:amp="@) && starts_with_seq(
            id@,
            "detail:scale="@,
        ) ==> (r matches MaterialDirective::DetailScale(v) && v@ == rest_after(id@, "detail:scale="@)),
        !starts_with_seq(id@, "palette:"@) && !starts_with_seq(id@, "detail:amp="@) && !starts_with_seq(
            id@,
            "detail:scale="@,
        ) ==> r == MaterialDirective::Other,
{
    let c = chars_of(id);
    let palette = chars_of("palette:");
    let amp = chars_of("detail:amp=");
    let scale = chars_of("detail:scale=");
    if starts_with(&c, &palette) {
        let rest = tail_from(&c, palette.len());
        match palette_variant(&rest) {
            Some(p) => MaterialDirective::Palette(p),
            None => MaterialDirective::UnknownPalette,
        }
    } else if starts_with(&c, &amp) {
        let rest = tail_from(&c, amp.len());
        MaterialDirective::DetailAmp(string_from_chars(&rest))
    } else if starts_with(&c, &scale) {
        let rest = tail_from(&c, scale.len());
        MaterialDirective::DetailScale(string_from_chars(&rest))
    } else {
        MaterialDirective::Other
    }
}


/// The texture slots a patch material can bind.
#[derive(Clone, Copy, Debug, PartialEq, Eq, Hash, Structural)]
pub enum TextureSlot {
    Albedo,
    Normal,
    Roughness,
}

/// The identifier that records the texture of `slot`: `tex:<slot>=<path>`.
pub open spec fn texture_identifier(slot: TextureSlot, path: Seq<char>) -> Seq<char> {
    let head = match slot {
        TextureSlot::Albedo => "tex:albedo="@,
        TextureSlot::Normal => "tex:normal="@,
        TextureSlot::Roughness => "tex:roughness="@,
    };
    head + path
}

/// `tex:<slot>=<path>`.
pub fn texture_identifier_for(slot: TextureSlot, path: &str) -> (r: String)
    ensures
        r@ == texture_identifier(slot, path@),
{
    let mut out = match slot {
        TextureSlot::Albedo => chars_of("tex:albedo="),
        TextureSlot::Normal => chars_of("tex:normal="),
        TextureSlot::Roughness => chars_of("tex:roughness="),
    };
    let p = chars_of(path);
    let ghost head = out@;
    let n = p.len();
    for i in 0..n
        invariant
            n == p@.len(),
            p@ == path@,
            out@ == head + p@.take(i as int),
    {
        out.push(p[i]);
        assert(out@ =~= head + p@.take(i + 1));
    }
    assert(p@.take(n as int) =~= p@);
    string_from_chars(&out)
}

/// The identifiers of a patch read from disk: its own, a default palette if
/// none was named, then one `tex:` identifier per texture, albedo first.
pub open spec fn bundle_identifiers(
    materials: Seq<Seq<char>>,
    albedo: Option<Seq<char>>,
    normal: Option<Seq<char>>,
    roughness: Option<Seq<char>>,
) -> Seq<Seq<char>> {
    let base = with_default_palette(materials);
    let a = match albedo {
        Some(p) => seq![texture_identifier(TextureSlot::Albedo, p)],
        None => Seq::empty(),
    };
    let n = match normal {
        Some(p) => seq![texture_identifier(TextureSlot::Normal, p)],
        None => Seq::empty(),
    };
    let r = match roughness {
        Some(p) => seq![texture_identifier(TextureSlot::Roughness, p)],
        None => Seq::empty(),
    };
    base + a + n + r
}

/// The view of an optional string.
pub open spec fn opt_view(s: Option<String>) -> Option<Seq<char>> {
    match s {
        Some(v) => Some(v@),
        None => None,
    }
}

/// Completes the identifiers of a patch read from disk, given the paths of
/// its textures (already resolved against the asset root).
pub fn bundle_material_ids(
    materials: Vec<String>,
    albedo: &Option<String>,
    normal: &Option<String>,
    roughness: &Option<String>,
) -> (r: Vec<String>)
    ensures
        ids_of(r@) == bundle_identifiers(ids_of(materials@), opt_view(*albedo), opt_view(*normal), opt_view(*roughness)),
{
    let mut out = materials;
    ensure_palette(&mut out);
    let ghost base = ids_of(out@);
    if let Some(p) = albedo {
        out.push(texture_identifier_for(TextureSlot::Albedo, p.as_str()));
    }
    let ghost with_a = ids_of(out@);
    if let Some(p) = normal {
        out.push(texture_identifier_for(TextureSlot::Normal, p.as_str()));
    }
    let ghost with_n = ids_of(out@);
    if let Some(p) = roughness {
        out.push(texture_identifier_for(TextureSlot::Roughness, p.as_str()));
    }
    proof {
        let a = match opt_view(*albedo) {
            Some(p) => seq![texture_identifier(TextureSlot::Albedo, p)],
            None => Seq::<Seq<char>>::empty(),
        };
        let n = match opt_view(*normal) {
            Some(p) => seq![texture_identifier(TextureSlot::Normal, p)],
            None => Seq::<Seq<char>>::empty(),
        };
        let rr = match opt_view(*roughness) {
            Some(p) => seq![texture_identifier(TextureSlot::Roughness, p)],
            None => Seq::<Seq<char>>::empty(),
        };
        assert(with_a =~= base + a);
        assert(with_n =~= base + a + n);
        assert(ids_of(out@) =~= base + a + n + rr);
    }
    out
}

/// How far a texture has loaded.
#[derive(Clone, Copy, Debug, PartialEq, Eq, Hash, Structural)]
pub enum TextureLoad {
    /// Still loading, or not known to the asset server.
    Loading,
    /// Loading failed.
    Failed,
    /// Loaded, and its format can be sampled with filtering.
    Ready,
    /// Loaded, but its image data is not available yet.
    Pending,
    /// Loaded, in a format that cannot be sampled with filtering.
    Unsupported,
}

/// What to do with a texture slot of a patch material.
#[derive(Clone, Copy, Debug, PartialEq, Eq, Hash, Structural)]
pub struct TextureBinding {
    /// Bind the texture to the material this frame.
    pub bind: bool,
    /// Forget the texture for good.
    pub forget: bool,
}

/// A texture is bound once it is ready, and forgotten when it failed or
/// cannot be filtered; otherwise the slot stays empty for now.
pub fn texture_binding(load: TextureLoad) -> (r: TextureBinding)
    ensures
        r.bind == (load == TextureLoad::Ready),
        r.forget == (load == TextureLoad::Failed || load == TextureLoad::Unsupported),
{
    match load {
        TextureLoad::Ready => TextureBinding { bind: true, forget: false },
        TextureLoad::Failed => TextureBinding { bind: false, forget: true },
        TextureLoad::Unsupported => TextureBinding { bind: false, forget: true },
        _ => TextureBinding { bind: false, forget: false },
    }
}

/// The texel formats that matter for filtering.
#[derive(Clone, Copy, Debug, PartialEq, Eq, Hash, Structural)]
pub enum TexelFormat {
    R8Uint,
    R16Uint,
    Rg8Uint,
    Rg16Uint,
    Rgba8Uint,
    Rgba16Uint,
    R8Unorm,
    R16Unorm,
    Rg8Unorm,
    Rg16Unorm,
    Rgba8Unorm,
    Rgba16Unorm,
    /// A 32-bit unsigned or any signed integer format.
    OtherInteger,
    /// Any other format.
    Other,
}

/// How to make a texture filterable.
#[derive(Clone, Copy, Debug, PartialEq, Eq, Hash, Structural)]
pub enum FilterFix {
    /// Already filterable.
    Keep,
    /// Read the same bytes as the normalized format.
    Reinterpret(TexelFormat),
    /// Integer data that cannot be filtered.
    Unsupported,
}

/// Unsigned 8- and 16-bit integer formats are read as the matching
/// normalized format; other integer formats cannot be filtered.
pub open spec fn filter_fix_spec(f: TexelFormat) -> FilterFix {
    match f {
        TexelFormat::R8Uint => FilterFix::Reinterpret(TexelFormat::R8Unorm),
        TexelFormat::R16Uint => FilterFix::Reinterpret(TexelFormat::R16Unorm),
        TexelFormat::Rg8Uint => FilterFix::Reinterpret(TexelFormat::Rg8Unorm),
        TexelFormat::Rg16Uint => FilterFix::Reinterpret(TexelFormat::Rg16Unorm),
        TexelFormat::Rgba8Uint => FilterFix::Reinterpret(TexelFormat::Rgba8Unorm),
        TexelFormat::Rgba16Uint => FilterFix::Reinterpret(TexelFormat::Rgba16Unorm),
        TexelFormat::OtherInteger => FilterFix::Unsupported,
        _ => FilterFix::Keep,
    }
}

/// How to make a texture of format `f` filterable.
pub fn filter_fix(f: TexelFormat) -> (r: FilterFix)
    ensures
        r == filter_fix_spec(f),
{
    match f {
        TexelFormat::R8Uint => FilterFix::Reinterpret(TexelFormat::R8Unorm),
        TexelFormat::R16Uint => FilterFix::Reinterpret(TexelFormat::R16Unorm),
        TexelFormat::Rg8Uint => FilterFix::Reinterpret(TexelFormat::Rg8Unorm),
        TexelFormat::Rg16Uint => FilterFix::Reinterpret(TexelFormat::Rg16Unorm),
        TexelFormat::Rgba8Uint => FilterFix::Reinterpret(TexelFormat::Rgba8Unorm),
        TexelFormat::Rgba16Uint => FilterFix::Reinterpret(TexelFormat::Rgba16Unorm),
        TexelFormat::OtherInteger => FilterFix::Unsupported,
        _ => FilterFix::Keep,
    }
}

/// Reinterpreting a format yields one that needs no further fix.
pub proof fn lemma_filter_fix_settles(f: TexelFormat)
    ensures
        filter_fix_spec(f) matches FilterFix::Reinterpret(g) ==> filter_fix_spec(g) == FilterFix::Keep,
{
}

/// The gizmo family of a prop.
#[derive(Clone, Copy, Debug, PartialEq, Eq, Hash, Structural)]
pub enum GizmoFamily {
    /// Trees, forests and shrubs: a green sphere.
    Foliage,
    /// Bases, structures, towers, buildings and antennas: an ochre cylinder.
    Structure,
    /// Anything else: a sphere coloured from the hash of the kind.
    Custom,
}

/// The family of a prop kind, by case-insensitive substrings.
pub open spec fn gizmo_family_of(kind: Seq<char>) -> GizmoFamily {
    let l = lower_seq(kind);
    if contains_seq(l, "tree"@) || contains_seq(l, "forest"@) || contains_seq(l, "shrub"@) {
        GizmoFamily::Foliage
    } else if contains_seq(l, "base"@) || contains_seq(l, "structure"@) || contains_seq(l, "tower"@) || contains_seq(
        l,
        "building"@,
    ) || contains_seq(l, "antenna"@) {
        GizmoFamily::Structure
    } else {
        GizmoFamily::Custom
    }
}

/// How a prop is drawn: the key its material is shared under, the shape, and
/// for a custom family the hash whose low three bytes give red, green, blue.
pub struct GizmoDescriptor {
    pub family: GizmoFamily,
    pub key: String,
    pub use_cylinder: bool,
    pub color_hash: u32,
}

/// The gizmo of a prop of `kind`.
pub fn gizmo_descriptor(kind: &str) -> (r: GizmoDescriptor)
    ensures
        r.family == gizmo_family_of(kind@),
        r.key@ == match r.family {
            GizmoFamily::Foliage => "cat:foliage"@,
            GizmoFamily::Structure => "cat:structure"@,
            GizmoFamily::Custom => kind@,
        },
        r.use_cylinder == (r.family == GizmoFamily::Structure),
        r.family == GizmoFamily::Custom ==> r.color_hash == fnv1a(kind.spec_bytes()),
        r.family != GizmoFamily::Custom ==> r.color_hash == 0,
{
    let l = lower_all(&chars_of(kind));
    if contains(&l, &chars_of("tree")) || contains(&l, &chars_of("forest")) || contains(&l, &chars_of("shrub")) {
        GizmoDescriptor { family: GizmoFamily::Foliage, key: "cat:foliage".to_owned(), use_cylinder: false, color_hash: 0 }
    } else if contains(&l, &chars_of("base")) || contains(&l, &chars_of("structure")) || contains(&l, &chars_of("tower"))
        || contains(&l, &chars_of("building")) || contains(&l, &chars_of("antenna")) {
        GizmoDescriptor {
            family: GizmoFamily::Structure,
            key: "cat:structure".to_owned(),
            use_cylinder: true,
            color_hash: 0,
        }
    } else {
        let h = hash_kind(kind.as_bytes());
        GizmoDescriptor { family: GizmoFamily::Custom, key: kind.to_owned(), use_cylinder: false, color_hash: h }
    }
}

/// The material identifiers and texture paths a patch is drawn with.
#[derive(Clone, Debug)]
pub struct PatchLook {
    pub materials: Vec<String>,
    pub albedo: Option<String>,
    pub normal: Option<String>,
    pub roughness: Option<String>,
}

/// `own` unless it is `None`, in which case `parent`.
pub open spec fn or_parent(own: Option<Seq<char>>, parent: Option<Seq<char>>) -> Option<Seq<char>> {
    match own {
        Some(v) => Some(v),
        None => parent,
    }
}

/// Whether a look lacks its identifiers or one of its textures.
pub open spec fn look_incomplete(l: PatchLook) -> bool {
    l.materials@.len() == 0 || l.albedo is None || l.normal is None || l.roughness is None
}

/// A copy of identifiers.
fn copy_ids(v: &Vec<String>) -> (r: Vec<String>)
    ensures
        r@ == v@,
{
    let mut out: Vec<String> = Vec::new();
    let n = v.len();
    for i in 0..n
        invariant
            n == v@.len(),
            out@ == v@.take(i as int),
    {
        let c = v[i].clone();
        out.push(c);
        assert(out@ =~= v@.take(i + 1));
    }
    assert(v@.take(n as int) =~= v@);
    out
}

/// A copy of an optional path.
fn copy_path(o: &Option<String>) -> (r: Option<String>)
    ensures
        opt_view(r) == opt_view(*o),
{
    match o {
        Some(v) => Some(v.clone()),
        None => None,
    }
}

/// Fills the gaps of a freshly loaded patch's look from its parent's: the
/// parent's identifiers when the patch has none, and the parent's texture
/// for each slot the patch leaves empty.  A complete look, or one without a
/// parent, is kept.
pub fn inherit_look(own: PatchLook, parent: Option<&PatchLook>) -> (r: PatchLook)
    ensures
        parent is None || !look_incomplete(own) ==> r == own,
        look_incomplete(own) ==> match parent {
            Some(p) => {
                &&& ids_of(r.materials@) == if own.materials@.len() == 0 && p.materials@.len() > 0 {
                    ids_of(p.materials@)
                } else {
                    ids_of(own.materials@)
                }
                &&& opt_view(r.albedo) == or_parent(opt_view(own.albedo), opt_view(p.albedo))
                &&& opt_view(r.normal) == or_parent(opt_view(own.normal), opt_view(p.normal))
                &&& opt_view(r.roughness) == or_parent(opt_view(own.roughness), opt_view(p.roughness))
            },
            None => true,
        },
{
    let incomplete = own.materials.len() == 0 || own.albedo.is_none() || own.normal.is_none()
        || own.roughness.is_none();
    match parent {
        Some(p) => {
            if !incomplete {
                return own;
            }
            let materials = if own.materials.len() == 0 && p.materials.len() > 0 {
                copy_ids(&p.materials)
            } else {
                own.materials
            };
            let albedo = match own.albedo {
                Some(v) => Some(v),
                None => copy_path(&p.albedo),
            };
            let normal = match own.normal {
                Some(v) => Some(v),
                None => copy_path(&p.normal),
            };
            let roughness = match own.roughness {
                Some(v) => Some(v),
                None => copy_path(&p.roughness),
            };
            PatchLook { materials, albedo, normal, roughness }
        },
        None => own,
    }
}

/// Whether two identifier lists hold the same identifiers in the same order.
fn same_ids(a: &Vec<String>, b: &Vec<String>) -> (r: bool)
    ensures
        r == (ids_of(a@) == ids_of(b@)),
{
    if a.len() != b.len() {
        proof {
            assert(ids_of(a@).len() != ids_of(b@).len());
        }
        return false;
    }
    let n = a.len();
    for i in 0..n
        invariant
            n == a@.len(),
            n == b@.len(),
            forall|j: int| 0 <= j < i ==> a@[j]@ == b@[j]@,
    {
        if a[i] != b[i] {
            proof {
                assert(ids_of(a@)[i as int] != ids_of(b@)[i as int]);
            }
            return false;
        }
    }
    assert(ids_of(a@) =~= ids_of(b@));
    true
}

/// What resolving an identifier list for a patch material comes to.
#[derive(Clone, Copy, Debug, PartialEq, Eq, Structural)]
pub enum VariantChoice {
    /// Use the base material.
    Base,
    /// Use the variant with this handle, made earlier for the same list.
    Cached(u64),
    /// Build a variant: copy the base and apply each identifier.
    Build,
}

/// The handle recorded for `ids` among `keys` (parallel to `handles`).
pub open spec fn variant_lookup(keys: Seq<Seq<Seq<char>>>, handles: Seq<u64>, ids: Seq<Seq<char>>) -> Option<u64> {
    if keys.contains(ids) {
        Some(handles[keys.index_of(ids)])
    } else {
        None
    }
}

/// The material variants made so far, each by the identifier list it was
/// made from.
pub struct MaterialVariants {
    lists: Vec<Vec<String>>,
    handles: Vec<u64>,
}

impl MaterialVariants {
    /// The identifier lists with a variant, in the order they were made.
    pub closed spec fn keys_view(&self) -> Seq<Seq<Seq<char>>> {
        self.lists@.map_values(|l: Vec<String>| ids_of(l@))
    }

    /// The handle of each variant, parallel to `keys_view`.
    pub closed spec fn handles_view(&self) -> Seq<u64> {
        self.handles@
    }

    /// One handle per list, and no list twice.
    pub open spec fn wf(&self) -> bool {
        &&& self.keys_view().len() == self.handles_view().len()
        &&& self.keys_view().no_duplicates()
    }

    /// The handle made for `ids`, if any.
    pub open spec fn lookup(&self, ids: Seq<Seq<char>>) -> Option<u64> {
        variant_lookup(self.keys_view(), self.handles_view(), ids)
    }

    /// No variant yet.
    pub fn new() -> (r: MaterialVariants)
        ensures
            r.wf(),
            r.keys_view() == Seq::<Seq<Seq<char>>>::empty(),
            r.handles_view() == Seq::<u64>::empty(),
    {
        let r = MaterialVariants { lists: Vec::new(), handles: Vec::new() };
        assert(r.keys_view() =~= Seq::<Seq<Seq<char>>>::empty());
        r
    }

    /// The handles of all variants, in the order they were made.
    pub fn handles(&self) -> (r: &Vec<u64>)
        ensures
            r@ == self.handles_view(),
    {
        &self.handles
    }

    /// The handle made for `ids`, if any.
    pub fn variant_for(&self, ids: &Vec<String>) -> (r: Option<u64>)
        requires
            self.wf(),
        ensures
            r == self.lookup(ids_of(ids@)),
    {
        let n = self.lists.len();
        for i in 0..n
            invariant
                n == self.lists@.len(),
                self.wf(),
                forall|j: int| 0 <= j < i ==> self.keys_view()[j] != ids_of(ids@),
        {
            if same_ids(&self.lists[i], ids) {
                proof {
                    assert(self.keys_view()[i as int] == ids_of(ids@));
                    assert(self.keys_view().contains(ids_of(ids@)));
                    let k = self.keys_view().index_of(ids_of(ids@));
                    if k != i {
                        assert(self.keys_view()[k] == self.keys_view()[i as int]);
                    }
                }
                return Some(self.handles[i]);
            }
        }
        proof {
            if self.keys_view().contains(ids_of(ids@)) {
                let k = self.keys_view().index_of(ids_of(ids@));
                assert(self.keys_view()[k] == ids_of(ids@));
            }
        }
        None
    }

    /// Decides how to resolve `ids`: no identifiers, or no base material,
    /// give the base; a list resolved before gives its variant; otherwise a
    /// variant is built.
    pub fn choice(&self, ids: &Vec<String>, base_present: bool) -> (r: VariantChoice)
        requires
            self.wf(),
        ensures
            r == (if ids@.len() == 0 {
                VariantChoice::Base
            } else if self.lookup(ids_of(ids@)) is Some {
                VariantChoice::Cached(self.lookup(ids_of(ids@)).unwrap())
            } else if !base_present {
                VariantChoice::Base
            } else {
                VariantChoice::Build
            }),
    {
        if ids.len() == 0 {
            return VariantChoice::Base;
        }
        match self.variant_for(ids) {
            Some(h) => VariantChoice::Cached(h),
            None => {
                if !base_present {
                    VariantChoice::Base
                } else {
                    VariantChoice::Build
                }
            },
        }
    }

    /// Ends a build of `ids`: when no identifier changed the copy, the base
    /// is used and nothing is recorded; otherwise the new variant `handle`
    /// is recorded for `ids` and used.
    pub fn finish_build(&mut self, ids: &Vec<String>, changed: bool, handle: u64) -> (r: VariantChoice)
        requires
            old(self).wf(),
            old(self).lookup(ids_of(ids@)) is None,
        ensures
            final(self).wf(),
            !changed ==> r == VariantChoice::Base && final(self).keys_view() == old(self).keys_view()
                && final(self).handles_view() == old(self).handles_view(),
            changed ==> r == VariantChoice::Cached(handle) && final(self).keys_view() == old(self).keys_view().push(
                ids_of(ids@),
            ) && final(self).handles_view() == old(self).handles_view().push(handle),
    {
        if !changed {
            return VariantChoice::Base;
        }
        let ghost before = self.keys_view();
        let copy = copy_ids(ids);
        self.lists.push(copy);
        self.handles.push(handle);
        proof {
            assert(self.keys_view() =~= before.push(ids_of(ids@)));
            assert(!before.contains(ids_of(ids@)));
            assert forall|i: int, j: int|
                0 <= i < self.keys_view().len() && 0 <= j < self.keys_view().len() && i != j implies self.keys_view()[i]
                != self.keys_view()[j] by {
                if i < before.len() && j < before.len() {
                } else if i < before.len() {
                    assert(before.contains(before[i]));
                } else {
                    assert(before.contains(before[j]));
                }
            }
        }
        VariantChoice::Cached(handle)
    }
}

/// A variant recorded for a list is what resolving the same list gives
/// afterwards: building once, resolving from the cache ever after.
pub proof fn lemma_built_variant_is_reused(
    keys: Seq<Seq<Seq<char>>>,
    handles: Seq<u64>,
    ids: Seq<Seq<char>>,
    handle: u64,
)
    requires
        keys.len() == handles.len(),
        !keys.contains(ids),
    ensures
        variant_lookup(keys.push(ids), handles.push(handle), ids) == Some(handle),
{
    let k2 = keys.push(ids);
    assert(k2[keys.len() as int] == ids);
    assert(k2.contains(ids));
    let i = k2.index_of(ids);
    if i < keys.len() {
        assert(keys[i] == ids);
        assert(keys.contains(ids));
    }
}

} // verus!
