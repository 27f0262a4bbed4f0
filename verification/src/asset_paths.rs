//! Resolution of the texture paths written in patch descriptors into paths
//! relative to the asset root.
use vstd::prelude::*;
use std::path::{Component, Path};
use crate::manifest::{forward_slashes, replace_backslashes};
use crate::patch_materials::string_from_chars;
use crate::text::{chars_of, starts_with, starts_with_seq, tail_from};

verus! {

/// `s` with every leading copy of the non-empty `p` removed.
pub open spec fn strip_leading(s: Seq<char>, p: Seq<char>) -> Seq<char>
    decreases s.len(),
{
    if p.len() > 0 && starts_with_seq(s, p) {
        strip_leading(s.subrange(p.len() as int, s.len() as int), p)
    } else {
        s
    }
}

/// Removes every leading copy of `p` from `s`, as `str::trim_start_matches` does.
fn strip_leading_exec(s: &Vec<char>, p: &Vec<char>) -> (r: Vec<char>)
    requires
        p@.len() > 0,
    ensures
        r@ == strip_leading(s@, p@),
{
    let mut start: usize = 0;
    let n = s.len();
    let m = p.len();
    assert(s@.subrange(0, n as int) =~= s@);
    while m <= n - start && matches_from(s, p, start)
        invariant
            n == s@.len(),
            m == p@.len(),
            m > 0,
            start <= n,
            strip_leading(s@.subrange(start as int, n as int), p@) == strip_leading(s@, p@),
        decreases n - start,
    {
        proof {
            let t = s@.subrange(start as int, n as int);
            assert(t.subrange(0, m as int) =~= s@.subrange(start as int, start + m));
            assert(t.subrange(m as int, t.len() as int) =~= s@.subrange(start + m, n as int));
        }
        start = start + m;
    }
    proof {
        let t = s@.subrange(start as int, n as int);
        if start + m <= n {
            assert(t.subrange(0, m as int) =~= s@.subrange(start as int, start + m));
        }
    }
    tail_from(s, start)
}

/// Whether `p` occurs in `s` at `at`.
fn matches_from(s: &Vec<char>, p: &Vec<char>, at: usize) -> (r: bool)
    requires
        at + p@.len() <= s@.len(),
    ensures
        r == (s@.subrange(at as int, at + p@.len()) == p@),
{
    let m = p.len();
    let sl = s.len();
    for k in 0..m
        invariant
            m == p@.len(),
            sl == s@.len(),
            at + m <= sl,
            forall|j: int| 0 <= j < k ==> s@[at + j] == p@[j],
    {
        if s[at + k] != p[k] {
            assert(s@.subrange(at as int, at + m)[k as int] != p@[k as int]);
            return false;
        }
    }
    assert(s@.subrange(at as int, at + m) =~= p@);
    true
}

/// Path text free of the characters that begin a platform prefix or a
/// verbatim path (`\\`, `:` and `?`).  Such text splits into components the
/// same way on every platform: at `/`, with no prefix.
pub open spec fn plain_path(s: Seq<char>) -> bool {
    forall|i: int| 0 <= i < s.len() ==> s[i] != '\\' && s[i] != ':' && s[i] != '?'
}

/// Plain, non-empty path text that does not start at the root: relative on
/// every platform.
pub open spec fn plain_relative(s: Seq<char>) -> bool {
    plain_path(s) && s.len() > 0 && s[0] != '/'
}

/// A single plain component name: not empty, no separator, not `.` or `..`.
pub open spec fn plain_name(s: Seq<char>) -> bool {
    &&& plain_path(s)
    &&& s.len() > 0
    &&& forall|i: int| 0 <= i < s.len() ==> s[i] != '/'
    &&& s != "."@
    &&& s != ".."@
}

/// The text of `s` before its first `/`.
pub open spec fn first_segment(s: Seq<char>) -> Seq<char>
    decreases s.len(),
{
    if s.len() == 0 || s[0] == '/' {
        Seq::empty()
    } else {
        seq![s[0]] + first_segment(s.drop_first())
    }
}

/// The text of `s` after its last `/`.
pub open spec fn last_segment(s: Seq<char>) -> Seq<char>
    decreases s.len(),
{
    if s.len() == 0 || s.last() == '/' {
        Seq::empty()
    } else {
        last_segment(s.drop_last()).push(s.last())
    }
}

/// Plain directory text whose last component is a plain name written at its
/// very end (no trailing `/`, not `.` or `..`).
pub open spec fn named_dir(s: Seq<char>) -> bool {
    &&& plain_path(s)
    &&& s.len() > 0
    &&& s.last() != '/'
    &&& last_segment(s) != "."@
    &&& last_segment(s) != ".."@
}

/// The first component of a path, as plain values.
#[derive(Clone, Debug)]
pub enum PathPart {
    /// A platform prefix such as a drive.
    Prefix,
    /// The root directory.
    RootDir,
    /// `.` at the start of the path.
    CurDir,
    /// `..`.
    ParentDir,
    /// A name.
    Normal(String),
}

/// Whether `part` is the component written as the text `seg`.
pub open spec fn part_is(part: PathPart, seg: Seq<char>) -> bool {
    if seg == "."@ {
        part is CurDir
    } else if seg == ".."@ {
        part is ParentDir
    } else {
        part matches PathPart::Normal(n) && n@ == seg
    }
}

/// `/` or `\\`: a character that separates components on some platform.
pub open spec fn sep_char(c: char) -> bool {
    c == '/' || c == '\\'
}

/// Non-empty text without `:` or `?` whose first and last segments, with
/// either separator as a boundary, are names: it neither starts nor ends
/// with a separator, and its first and last segments are not `.`.  Taking
/// the components of such text and giving back the part that remains never
/// trims anything from its ends, on any platform.
pub open spec fn clean_ends(s: Seq<char>) -> bool {
    &&& s.len() > 0
    &&& forall|i: int| 0 <= i < s.len() ==> s[i] != ':' && s[i] != '?'
    &&& !sep_char(s[0])
    &&& !sep_char(s.last())
    &&& !(s[0] == '.' && (s.len() == 1 || sep_char(s[1])))
    &&& !(s.last() == '.' && (s.len() == 1 || sep_char(s[s.len() - 2])))
}

/// Calls `Path::is_relative`.  Trusted: plain text that does not start with
/// `/` has neither a prefix nor a root, so it is relative on every platform,
/// as the documentation of `Path::is_absolute` describes.  Of other text
/// nothing is stated: the answer depends on the platform.
#[verifier::external_body]
fn path_is_relative(p: &str) -> (r: bool)
    ensures
        plain_relative(p@) ==> r,
{
    Path::new(p).is_relative()
}

/// Calls `Path::components` and returns the first component.  Trusted: for
/// plain relative text the first component is its text up to the first `/`,
/// `.` giving `CurDir` and `..` giving `ParentDir`, as the documentation of
/// `Path::components` describes.  Of other text nothing is stated: how it
/// splits depends on the platform.
#[verifier::external_body]
fn first_component(p: &str) -> (r: Option<PathPart>)
    ensures
        plain_relative(p@) ==> r is Some && part_is(r.unwrap(), first_segment(p@)),
{
    match Path::new(p).components().next() {
        Some(Component::Prefix(_)) => Some(PathPart::Prefix),
        Some(Component::RootDir) => Some(PathPart::RootDir),
        Some(Component::CurDir) => Some(PathPart::CurDir),
        Some(Component::ParentDir) => Some(PathPart::ParentDir),
        Some(Component::Normal(n)) => Some(PathPart::Normal(n.to_string_lossy().into_owned())),
        None => None,
    }
}

/// Calls `Path::file_name`.  Trusted: for plain text ending in a name, the
/// file name is that last name, as the documentation of `Path::file_name`
/// describes.  Of other text nothing is stated: it depends on the platform.
#[verifier::external_body]
fn path_file_name(p: &str) -> (r: Option<String>)
    ensures
        named_dir(p@) ==> r is Some && r.unwrap()@ == last_segment(p@),
{
    Path::new(p).file_name().map(|n| n.to_string_lossy().into_owned())
}

/// Calls `Path::join`.  Trusted: joining plain relative text onto plain
/// text extends it, so the result starts with `base`, as the documentation
/// of `PathBuf::push` describes; when `base` is not empty and does not end
/// in `/`, one separator of the platform (`/` or `\\`) is put between them.
/// Which of the two, and the result for other text, depend on the platform
/// and are not stated.
#[verifier::external_body]
fn path_join(base: &str, rel: &str) -> (r: String)
    ensures
        plain_path(base@) && plain_relative(rel@) ==> starts_with_seq(r@, base@),
        plain_path(base@) && base@.len() > 0 && base@.last() != '/' && plain_relative(rel@) ==> r@.len() == base@.len()
            + 1 + rel@.len() && sep_char(r@[base@.len() as int]) && r@ == base@ + seq![r@[base@.len() as int]] + rel@,
{
    Path::new(base).join(rel).to_string_lossy().into_owned()
}

/// Calls `Path::strip_prefix`.  Trusted: a path whose text does not begin
/// with the single plain name `prefix` does not begin with it as a component
/// either, so nothing is stripped; a path written `prefix/rest`, with `rest`
/// ending in names at both ends, loses exactly `prefix/`, as the
/// documentation of `Path::strip_prefix` and `Path::starts_with` describes
/// and its examples show.  Other remainders are not stated: how their ends
/// are trimmed depends on the platform's components.
#[verifier::external_body]
fn strip_dir_prefix(p: &str, prefix: &str) -> (r: Option<String>)
    ensures
        plain_name(prefix@) && !starts_with_seq(p@, prefix@) ==> r is None,
        plain_name(prefix@) && starts_with_seq(p@, prefix@ + "/"@) && clean_ends(p@.skip(prefix@.len() + 1int)) ==> r is Some
            && r.unwrap()@ == p@.skip(prefix@.len() + 1int),
{
    Path::new(p).strip_prefix(prefix).ok().map(|rest| rest.to_string_lossy().into_owned())
}

/// Which directory a relative texture path is joined onto.
#[derive(Clone, Copy, Debug, PartialEq, Eq, Structural)]
pub enum JoinRoot {
    /// The patch root: the path already names the descriptor's directory.
    PatchRoot,
    /// The descriptor's own directory.
    DescriptorDir,
}

/// The root for a path that is `relative` (or none), given its first
/// component and the name of the descriptor's directory.
pub open spec fn join_root_spec(relative: bool, first: Option<PathPart>, dir_name: Option<String>) -> Option<JoinRoot> {
    if !relative {
        None
    } else if first matches Some(PathPart::Normal(f)) && dir_name matches Some(d) && f@ == d@ {
        Some(JoinRoot::PatchRoot)
    } else {
        Some(JoinRoot::DescriptorDir)
    }
}

/// Chooses where a texture path is joined: nowhere when it is not relative;
/// onto the patch root when its first component is a name equal to the
/// descriptor directory's name; onto the descriptor's directory otherwise.
pub fn join_root(relative: bool, first: &Option<PathPart>, dir_name: &Option<String>) -> (r: Option<JoinRoot>)
    ensures
        r == join_root_spec(relative, *first, *dir_name),
{
    if !relative {
        return None;
    }
    match (first, dir_name) {
        (Some(PathPart::Normal(f)), Some(d)) => {
            if *f == *d {
                Some(JoinRoot::PatchRoot)
            } else {
                Some(JoinRoot::DescriptorDir)
            }
        },
        _ => Some(JoinRoot::DescriptorDir),
    }
}

/// The root a plain relative path `cleaned` from a descriptor in `dir` is
/// joined onto: the patch root `base` when its first component is the name
/// of `dir`, `dir` otherwise.
pub open spec fn chosen_root(base: Seq<char>, dir: Seq<char>, cleaned: Seq<char>) -> Seq<char> {
    if first_segment(cleaned) == last_segment(dir) {
        base
    } else {
        dir
    }
}

/// `s` is at least as long as `p` and does not start with it, so nothing
/// that starts with `s` starts with `p`.
pub open spec fn blocks_prefix(s: Seq<char>, p: Seq<char>) -> bool {
    s.len() >= p.len() && !starts_with_seq(s, p)
}

proof fn lemma_plain_subrange(s: Seq<char>, k: int)
    requires
        plain_path(s),
        0 <= k <= s.len(),
    ensures
        plain_path(s.skip(k)),
{
}

/// Turning backslashes into slashes in `a`, a separator and `b`, with `a`
/// and `b` plain, gives `a`, a slash and `b`.
proof fn lemma_forward_slashes_join(a: Seq<char>, sep: char, b: Seq<char>)
    requires
        plain_path(a),
        plain_path(b),
        sep_char(sep),
    ensures
        forward_slashes(a + seq![sep] + b) == a + "/"@ + b,
{
    reveal_strlit("/");
    assert(forward_slashes(a + seq![sep] + b) =~= a + "/"@ + b);
}

/// Joining two texts with clean ends by a separator keeps the ends clean.
proof fn lemma_clean_join(a: Seq<char>, sep: char, b: Seq<char>)
    requires
        clean_ends(a),
        clean_ends(b),
        plain_path(a),
        plain_path(b),
        sep_char(sep),
    ensures
        clean_ends(a + seq![sep] + b),
{
    let s = a + seq![sep] + b;
    assert(s[0] == a[0]);
    assert(s.last() == b.last());
    if a.len() == 1 {
        assert(s[1] == sep);
    } else {
        assert(s[1] == a[1]);
    }
    if b.len() == 1 {
        assert(s[s.len() - 2] == sep);
    } else {
        assert(s[s.len() - 2] == b[b.len() - 2]);
    }
    assert forall|i: int| 0 <= i < s.len() implies s[i] != ':' && s[i] != '?' by {
        if i < a.len() {
            assert(s[i] == a[i]);
        } else if i == a.len() {
        } else {
            assert(s[i] == b[i - a.len() - 1]);
        }
    }
}

proof fn lemma_prefix_blocked(c: Seq<char>, s: Seq<char>, p: Seq<char>)
    requires
        starts_with_seq(c, s),
        blocks_prefix(s, p),
    ensures
        !starts_with_seq(c, p),
{
    assert(c.subrange(0, p.len() as int) =~= s.subrange(0, p.len() as int));
}

proof fn lemma_forward_slashes_prefix(c: Seq<char>, s: Seq<char>)
    requires
        starts_with_seq(c, s),
        plain_path(s),
    ensures
        starts_with_seq(forward_slashes(c), s),
{
    assert(forward_slashes(c).subrange(0, s.len() as int) =~= s);
}

/// Whether the cleaned path starts at the asset root, and then what is left
/// of it; or whether it already names the patch directory.
pub open spec fn asset_path_shortcut(raw: Seq<char>) -> Option<Seq<char>> {
    let cleaned = forward_slashes(raw);
    if starts_with_seq(cleaned, "assets/"@) {
        Some(strip_leading(cleaned, "assets/"@))
    } else if starts_with_seq(cleaned, "planet_patches/"@) {
        Some(cleaned)
    } else {
        None
    }
}

/// Resolves a texture path written in a patch descriptor found in
/// `descriptor_dir` (below the patch root `base_path`) into a path relative to
/// the asset root, with forward slashes.  A path that starts with `assets/`
/// loses every leading `assets/`; one that starts with `planet_patches/` is
/// kept.  Any other path is joined, when relative, to the patch root if its
/// first component names the descriptor's directory and to that directory
/// otherwise (see `join_root`), and then loses a leading `assets` component.
pub fn normalize_asset_path(base_path: &str, descriptor_dir: &str, raw: &str) -> (r: String)
    ensures
        asset_path_shortcut(raw@) matches Some(p) ==> r@ == p,
        asset_path_shortcut(raw@) is None ==> forall|i: int| 0 <= i < r@.len() ==> r@[i] != '\\',
        asset_path_shortcut(raw@) is None && plain_relative(forward_slashes(raw@)) && plain_path(base_path@)
            && named_dir(descriptor_dir@) && blocks_prefix(
            chosen_root(base_path@, descriptor_dir@, forward_slashes(raw@)),
            "assets"@,
        ) ==> starts_with_seq(r@, chosen_root(base_path@, descriptor_dir@, forward_slashes(raw@))),
        asset_path_shortcut(raw@) is None && plain_relative(forward_slashes(raw@)) && plain_path(base_path@)
            && named_dir(descriptor_dir@) && blocks_prefix(
            chosen_root(base_path@, descriptor_dir@, forward_slashes(raw@)),
            "assets"@,
        ) && chosen_root(base_path@, descriptor_dir@, forward_slashes(raw@)).last() != '/' ==> r@ == chosen_root(
            base_path@,
            descriptor_dir@,
            forward_slashes(raw@),
        ) + "/"@ + forward_slashes(raw@),
        asset_path_shortcut(raw@) is None && plain_relative(forward_slashes(raw@)) && clean_ends(forward_slashes(raw@))
            && plain_path(base_path@) && named_dir(descriptor_dir@) && starts_with_seq(
            chosen_root(base_path@, descriptor_dir@, forward_slashes(raw@)),
            "assets/"@,
        ) && clean_ends(chosen_root(base_path@, descriptor_dir@, forward_slashes(raw@)).skip(7)) ==> r@ == chosen_root(
            base_path@,
            descriptor_dir@,
            forward_slashes(raw@),
        ).skip(7) + "/"@ + forward_slashes(raw@),
{
    let cleaned = replace_backslashes(raw);
    let c = chars_of(cleaned.as_str());
    let assets = chars_of("assets/");
    proof {
        reveal_strlit("assets/");
        reveal_strlit("assets");
    }
    if starts_with(&c, &assets) {
        let rest = strip_leading_exec(&c, &assets);
        return string_from_chars(&rest);
    }
    if starts_with(&c, &chars_of("planet_patches/")) {
        return cleaned;
    }
    let relative = path_is_relative(cleaned.as_str());
    let (first, dir_name) = if relative {
        (first_component(cleaned.as_str()), path_file_name(descriptor_dir))
    } else {
        (None, None)
    };
    let root = join_root(relative, &first, &dir_name);
    let ghost guarded = plain_relative(cleaned@) && plain_path(base_path@) && named_dir(descriptor_dir@);
    proof {
        if guarded {
            let seg = first_segment(cleaned@);
            let name = last_segment(descriptor_dir@);
            if seg == name {
                assert(root == Some(JoinRoot::PatchRoot));
            } else {
                assert(root == Some(JoinRoot::DescriptorDir));
            }
        }
    }
    let candidate = match root {
        Some(JoinRoot::PatchRoot) => path_join(base_path, cleaned.as_str()),
        Some(JoinRoot::DescriptorDir) => path_join(descriptor_dir, cleaned.as_str()),
        None => cleaned,
    };
    let stripped = match strip_dir_prefix(candidate.as_str(), "assets") {
        Some(s) => s,
        None => candidate,
    };
    let out = replace_backslashes(stripped.as_str());
    proof {
        let chosen = chosen_root(base_path@, descriptor_dir@, cleaned@);
        if guarded && blocks_prefix(chosen, "assets"@) {
            assert(starts_with_seq(candidate@, chosen));
            lemma_prefix_blocked(candidate@, chosen, "assets"@);
            reveal_strlit(".");
            reveal_strlit("..");
            assert("assets"@.len() != "."@.len());
            assert("assets"@.len() != ".."@.len());
            assert(plain_name("assets"@));
            assert(stripped@ == candidate@);
            lemma_forward_slashes_prefix(candidate@, chosen);
            if chosen.last() != '/' {
                let sep = candidate@[chosen.len() as int];
                lemma_forward_slashes_join(chosen, sep, cleaned@);
            }
        }
        if guarded && starts_with_seq(chosen, "assets/"@) && clean_ends(chosen.skip(7)) && clean_ends(cleaned@) {
            reveal_strlit("/");
            let rr = chosen.skip(7);
            assert(chosen =~= "assets/"@ + rr);
            assert("assets/"@ =~= "assets"@ + "/"@);
            assert(chosen.last() == rr.last());
            assert(chosen.len() > 0 && chosen.last() != '/');
            let sep = candidate@[chosen.len() as int];
            assert(candidate@ == chosen + seq![sep] + cleaned@);
            let rest = rr + seq![sep] + cleaned@;
            assert(candidate@ =~= "assets"@ + "/"@ + rest);
            assert(("assets"@ + "/"@).len() == 7);
            assert(candidate@.subrange(0, 7) =~= "assets"@ + "/"@);
            assert(starts_with_seq(candidate@, "assets"@ + "/"@));
            assert(candidate@.skip(7) =~= rest);
            lemma_clean_join(rr, sep, cleaned@);
            reveal_strlit(".");
            reveal_strlit("..");
            assert("assets"@.len() != "."@.len());
            assert("assets"@.len() != ".."@.len());
            assert(plain_name("assets"@));
            assert(stripped@ == rest);
            lemma_plain_subrange(chosen, 7);
            lemma_forward_slashes_join(rr, sep, cleaned@);
        }
    }
    out
}

} // verus!
