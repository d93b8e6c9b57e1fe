//! Paths are held as strings; the path operations of std and of `path_clean`
//! are reached through the trusted items below.  Each result is named, so the
//! contracts of the library speak of the same operation the code performs.

use vstd::prelude::*;
use std::path::{Component, Path};

verus! {

/// `Path::starts_with`: `base` is a prefix of `path`, component by component.
pub uninterp spec fn path_starts_with(path: Seq<char>, base: Seq<char>) -> bool;

/// `Path::strip_prefix` on a path that starts with `base`: what is left of
/// `path` after the components of `base`.
pub uninterp spec fn path_strip_prefix(path: Seq<char>, base: Seq<char>) -> Seq<char>;

/// `Path::join`: `rest` appended to `base` (or `rest` itself when absolute).
pub uninterp spec fn path_join(base: Seq<char>, rest: Seq<char>) -> Seq<char>;

/// `path_clean::clean`: the path with `.` and `..` components resolved
/// lexically and repeated separators collapsed.
pub uninterp spec fn path_clean(path: Seq<char>) -> Seq<char>;

/// `Path::parent`: the path without its final component, if it has one.
pub uninterp spec fn path_parent(path: Seq<char>) -> Option<Seq<char>>;

/// `Path::file_name`: the final component of the path, if it is a normal one.
pub uninterp spec fn path_file_name(path: Seq<char>) -> Option<Seq<char>>;

/// What is left of a path after its first component (`Path::components`,
/// then `Components::as_path`).
pub uninterp spec fn path_skip_first(path: Seq<char>) -> Seq<char>;

/// `Path < Path`: `a` sorts before `b`, comparing their components.
pub uninterp spec fn path_less(a: Seq<char>, b: Seq<char>) -> bool;

/// `Path == Path`: the two paths have the same components.
pub uninterp spec fn path_equal(a: Seq<char>, b: Seq<char>) -> bool;

/// Trusted: calls `Path::starts_with`; the result is the named `path_starts_with`.
#[verifier::external_body]
pub(crate) fn starts_with(path: &str, base: &str) -> (r: bool)
    ensures
        r == path_starts_with(path@, base@),
{
    Path::new(path).starts_with(base)
}

/// Trusted: calls `Path::strip_prefix`.  As std documents, it fails exactly
/// when `base` is not a prefix of `path` (when `starts_with` is false); the
/// remainder is the named `path_strip_prefix`.
#[verifier::external_body]
pub(crate) fn strip_prefix(path: &str, base: &str) -> (r: Option<String>)
    ensures
        r is Some <==> path_starts_with(path@, base@),
        r matches Some(s) ==> s@ == path_strip_prefix(path@, base@),
{
    Path::new(path).strip_prefix(base).ok().map(|p| p.to_string_lossy().into_owned())
}

/// Trusted: calls `Path::join`; the result is the named `path_join`.
#[verifier::external_body]
pub(crate) fn join(base: &str, rest: &str) -> (r: String)
    ensures
        r@ == path_join(base@, rest@),
{
    Path::new(base).join(rest).to_string_lossy().into_owned()
}

/// Trusted: calls `path_clean::clean`; the result is the named `path_clean`.
#[verifier::external_body]
pub(crate) fn clean(path: &str) -> (r: String)
    ensures
        r@ == path_clean(path@),
{
    path_clean::clean(path).to_string_lossy().into_owned()
}

/// Trusted: calls `Path::parent`; the result is the named `path_parent`.
#[verifier::external_body]
pub(crate) fn parent(path: &str) -> (r: Option<String>)
    ensures
        r is Some <==> path_parent(path@) is Some,
        r matches Some(s) ==> path_parent(path@) == Some(s@),
{
    Path::new(path).parent().map(|p| p.to_string_lossy().into_owned())
}

/// Trusted: calls `Path::file_name`; the result is the named `path_file_name`.
#[verifier::external_body]
pub(crate) fn file_name(path: &str) -> (r: Option<String>)
    ensures
        r is Some <==> path_file_name(path@) is Some,
        r matches Some(s) ==> path_file_name(path@) == Some(s@),
{
    Path::new(path).file_name().map(|n| n.to_string_lossy().into_owned())
}

/// Trusted: compares two paths with `==` on `Path`; the result is the named
/// `path_equal`.  `Path` is `Eq`, so a path written the same way is equal to
/// itself.
#[verifier::external_body]
pub(crate) fn equal(a: &str, b: &str) -> (r: bool)
    ensures
        r == path_equal(a@, b@),
        a@ == b@ ==> r,
{
    Path::new(a) == Path::new(b)
}


/// Two paths name the same file as `Path == Path` tells: written the same
/// way, or with the same components.
pub open spec fn same_path(a: Seq<char>, b: Seq<char>) -> bool {
    a == b || path_equal(a, b)
}

/// Trusted: `Path::new(a) < Path::new(b)`; the result is the named
/// `path_less`.
#[verifier::external_body]
pub(crate) fn less(a: &str, b: &str) -> (r: bool)
    ensures
        r == path_less(a@, b@),
{
    Path::new(a) < Path::new(b)
}

/// Trusted: takes the `Path::components` of `path`, steps past the first,
/// and gives back the rest as a path (`Components::as_path`); the result is
/// the named `path_skip_first`.
#[verifier::external_body]
pub(crate) fn skip_first_component(path: &str) -> (r: String)
    ensures
        r@ == path_skip_first(path@),
{
    let mut components = Path::new(path).components();
    components.next();
    components.as_path().to_string_lossy().into_owned()
}

/// Compares two paths as `Path == Path` does; paths written the same way
/// are told equal without taking them apart.
pub(crate) fn paths_match(a: &str, b: &str) -> (r: bool)
    ensures
        r == same_path(a@, b@),
{
    crate::strings::str_eq(a, b) || equal(a, b)
}


/// `pathdiff::diff_paths`: the relative path that leads from `base` to
/// `path`, when there is one.
pub uninterp spec fn path_diff(path: Seq<char>, base: Seq<char>) -> Option<Seq<char>>;

/// Trusted: calls `pathdiff::diff_paths`; the result is the named
/// `path_diff`.
#[verifier::external_body]
pub(crate) fn relative_to(path: &str, base: &str) -> (r: Option<String>)
    ensures
        r is Some <==> path_diff(path@, base@) is Some,
        r matches Some(s) ==> path_diff(path@, base@) == Some(s@),
{
    pathdiff::diff_paths(path, base).map(|p| p.to_string_lossy().into_owned())
}


/// `Path::ancestors().any(|a| a == dir)`: `dir` is `path` itself or one of
/// the directories above it.
pub uninterp spec fn path_has_ancestor(path: Seq<char>, dir: Seq<char>) -> bool;

/// Trusted: walks `Path::ancestors` of `path` looking for one equal to
/// `dir`; the result is the named `path_has_ancestor`.
#[verifier::external_body]
pub(crate) fn has_ancestor(path: &str, dir: &str) -> (r: bool)
    ensures
        r == path_has_ancestor(path@, dir@),
{
    Path::new(path).ancestors().any(|a| a == Path::new(dir))
}

// ---------------------------------------------------------------------------
// Path order, component by component

/// `Path::components` of a path: each component's kind, numbered in the
/// order in which `Component` sorts its variants (0 a prefix, 1 the root,
/// 2 `.`, 3 `..`, 4 a name), and its text.
pub uninterp spec fn path_components(path: Seq<char>) -> Seq<(u8, Seq<char>)>;

/// A component of a path: its kind (as in `path_components`) and its text.
pub struct PathComponent {
    pub kind: u8,
    pub text: String,
}

pub open spec fn components_view(v: Seq<PathComponent>) -> Seq<(u8, Seq<char>)> {
    v.map_values(|c: PathComponent| (c.kind, c.text@))
}

/// Trusted: walks `Path::components` of `path`, telling the variants of
/// `Component` apart and taking each one's text (`as_os_str`); the result
/// is the named `path_components`.
#[verifier::external_body]
pub(crate) fn components(path: &str) -> (r: Vec<PathComponent>)
    ensures
        components_view(r@) == path_components(path@),
{
    let mut r = Vec::new();
    for c in Path::new(path).components() {
        let kind = match c {
            Component::Prefix(_) => 0,
            Component::RootDir => 1,
            Component::CurDir => 2,
            Component::ParentDir => 3,
            Component::Normal(_) => 4,
        };
        r.push(PathComponent { kind, text: c.as_os_str().to_string_lossy().into_owned() });
    }
    r
}

/// `a` comes before `b` in the order of their characters' code points
/// (for UTF-8 text, the order of their bytes, as `OsStr` compares).
pub open spec fn chars_lt(a: Seq<char>, b: Seq<char>) -> bool
    decreases a.len(),
{
    if a.len() == 0 {
        b.len() > 0
    } else if b.len() == 0 {
        false
    } else if a[0] != b[0] {
        (a[0] as u32) < (b[0] as u32)
    } else {
        chars_lt(a.drop_first(), b.drop_first())
    }
}

/// One component before another: by kind, then by text.
pub open spec fn component_lt(a: (u8, Seq<char>), b: (u8, Seq<char>)) -> bool {
    a.0 < b.0 || (a.0 == b.0 && chars_lt(a.1, b.1))
}

/// The components `a` come before `b`, compared one by one (a path whose
/// components begin another's comes first).
pub open spec fn components_lt(a: Seq<(u8, Seq<char>)>, b: Seq<(u8, Seq<char>)>) -> bool
    decreases a.len(),
{
    if a.len() == 0 {
        b.len() > 0
    } else if b.len() == 0 {
        false
    } else if a[0] != b[0] {
        component_lt(a[0], b[0])
    } else {
        components_lt(a.drop_first(), b.drop_first())
    }
}

/// The path `a` sorts before the path `b`, comparing their components.
pub open spec fn file_lt(a: Seq<char>, b: Seq<char>) -> bool {
    components_lt(path_components(a), path_components(b))
}

proof fn lemma_chars_lt_irreflexive(a: Seq<char>)
    ensures
        !chars_lt(a, a),
    decreases a.len(),
{
    if a.len() > 0 {
        lemma_chars_lt_irreflexive(a.drop_first());
    }
}

proof fn lemma_chars_lt_transitive(a: Seq<char>, b: Seq<char>, c: Seq<char>)
    requires
        chars_lt(a, b),
        chars_lt(b, c),
    ensures
        chars_lt(a, c),
    decreases a.len(),
{
    if a.len() > 0 && b.len() > 0 && c.len() > 0 && a[0] == b[0] && b[0] == c[0] {
        lemma_chars_lt_transitive(a.drop_first(), b.drop_first(), c.drop_first());
    }
}

proof fn lemma_component_lt(a: (u8, Seq<char>), b: (u8, Seq<char>), c: (u8, Seq<char>))
    ensures
        !component_lt(a, a),
        component_lt(a, b) && component_lt(b, c) ==> component_lt(a, c),
{
    lemma_chars_lt_irreflexive(a.1);
    if component_lt(a, b) && component_lt(b, c) && a.0 == b.0 && b.0 == c.0 {
        lemma_chars_lt_transitive(a.1, b.1, c.1);
    }
}

proof fn lemma_components_lt_irreflexive(a: Seq<(u8, Seq<char>)>)
    ensures
        !components_lt(a, a),
    decreases a.len(),
{
    if a.len() > 0 {
        lemma_components_lt_irreflexive(a.drop_first());
    }
}

proof fn lemma_components_lt_transitive(a: Seq<(u8, Seq<char>)>, b: Seq<(u8, Seq<char>)>, c: Seq<(u8, Seq<char>)>)
    requires
        components_lt(a, b),
        components_lt(b, c),
    ensures
        components_lt(a, c),
    decreases a.len(),
{
    if a.len() > 0 && b.len() > 0 && c.len() > 0 {
        lemma_component_lt(a[0], b[0], c[0]);
        lemma_component_lt(a[0], a[0], a[0]);
        if a[0] == b[0] && b[0] == c[0] {
            lemma_components_lt_transitive(a.drop_first(), b.drop_first(), c.drop_first());
        }
    }
}

/// No path sorts before itself.
pub proof fn lemma_file_lt_irreflexive(a: Seq<char>)
    ensures
        !file_lt(a, a),
{
    lemma_components_lt_irreflexive(path_components(a));
}

/// Path order is transitive.
pub proof fn lemma_file_lt_transitive(a: Seq<char>, b: Seq<char>, c: Seq<char>)
    requires
        file_lt(a, b),
        file_lt(b, c),
    ensures
        file_lt(a, c),
{
    lemma_components_lt_transitive(path_components(a), path_components(b), path_components(c));
}

fn chars_less(a: &String, b: &String) -> (r: bool)
    ensures
        r == chars_lt(a@, b@),
{
    let va = crate::strings::chars_of(a.as_str());
    let vb = crate::strings::chars_of(b.as_str());
    let mut i: usize = 0;
    assert(a@.skip(0) =~= a@ && b@.skip(0) =~= b@);
    while i < va.len() && i < vb.len() && va[i] == vb[i]
        invariant
            va@ == a@,
            vb@ == b@,
            i <= va@.len(),
            i <= vb@.len(),
            chars_lt(a@, b@) == chars_lt(a@.skip(i as int), b@.skip(i as int)),
        decreases va.len() - i,
    {
        proof {
            assert(a@.skip(i as int).drop_first() =~= a@.skip(i + 1));
            assert(b@.skip(i as int).drop_first() =~= b@.skip(i + 1));
        }
        i += 1;
    }
    if i == va.len() {
        i < vb.len()
    } else if i == vb.len() {
        false
    } else {
        (va[i] as u32) < (vb[i] as u32)
    }
}

/// Whether the components `a` come before `b`.
pub fn components_less(a: &Vec<PathComponent>, b: &Vec<PathComponent>) -> (r: bool)
    ensures
        r == components_lt(components_view(a@), components_view(b@)),
{
    let ghost va = components_view(a@);
    let ghost vb = components_view(b@);
    let mut i: usize = 0;
    assert(va.skip(0) =~= va && vb.skip(0) =~= vb);
    while i < a.len() && i < b.len()
        invariant
            va == components_view(a@),
            vb == components_view(b@),
            i <= a@.len(),
            i <= b@.len(),
            components_lt(va, vb) == components_lt(va.skip(i as int), vb.skip(i as int)),
        decreases a.len() - i,
    {
        let same_text = crate::strings::str_eq(a[i].text.as_str(), b[i].text.as_str());
        assert(va[i as int] == (a@[i as int].kind, a@[i as int].text@));
        assert(vb[i as int] == (b@[i as int].kind, b@[i as int].text@));
        assert(va.skip(i as int)[0] == va[i as int]);
        assert(vb.skip(i as int)[0] == vb[i as int]);
        if a[i].kind != b[i].kind || !same_text {
            if a[i].kind < b[i].kind {
                return true;
            } else if a[i].kind > b[i].kind {
                return false;
            } else {
                return chars_less(&a[i].text, &b[i].text);
            }
        }
        proof {
            assert(va.skip(i as int).drop_first() =~= va.skip(i + 1));
            assert(vb.skip(i as int).drop_first() =~= vb.skip(i + 1));
        }
        i += 1;
    }
    i == a.len() && i < b.len()
}

/// Whether the path `a` sorts before the path `b` (`Path` order).
pub fn path_sorts_before(a: &str, b: &str) -> (r: bool)
    ensures
        r == file_lt(a@, b@),
{
    let ca = components(a);
    let cb = components(b);
    components_less(&ca, &cb)
}

} // verus!
