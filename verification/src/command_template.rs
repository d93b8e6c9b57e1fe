//! The `%` placeholders of command lines and names typed by the user: `%f`
//! the selected file, `%n` its name without suffix, `%e` its suffix, `%d`
//! the directory, `%b` its base name, `%s` the selected files, `%t` the
//! tagged files, and the same in capitals for the other panel.

use vstd::prelude::*;
use crate::archive_mounter::ArchiveMounter;
use crate::entry::Entry;
use crate::names::{tar_stem, tar_stem_spec, tar_suffix, tar_suffix_spec};
use crate::panel::{mounts_of, shown_path};
use crate::paths::{path_diff, path_file_name, relative_to};
use crate::strings::{chars_of, push_char, push_str};
use crate::template::{lookup, mapping_view, substitute, substitute_spec};

verus! {

broadcast use vstd::string::group_string_axioms;

/// `shlex::try_quote` of a string without a nul character: the string as a
/// single shell word.
pub uninterp spec fn shell_quoted(s: Seq<char>) -> Seq<char>;

/// Trusted: calls `shlex::try_quote`.  As its source shows, it fails exactly
/// when the string holds a nul character; otherwise the result is the named
/// `shell_quoted`.
#[verifier::external_body]
fn try_quote(s: &str) -> (r: Option<String>)
    ensures
        r is None <==> s@.contains('\0'),
        r matches Some(q) ==> q@ == shell_quoted(s@),
{
    match shlex::try_quote(s) {
        Ok(q) => Some(q.into_owned()),
        Err(_) => None,
    }
}

/// `s` as it goes into the template: quoted as one shell word when `quote`
/// (empty when it cannot be quoted), else as it is.
pub open spec fn quoted(s: Seq<char>, quote: bool) -> Seq<char> {
    if quote {
        if s.contains('\0') {
            Seq::empty()
        } else {
            shell_quoted(s)
        }
    } else {
        s
    }
}

fn quote_arg(s: &str, quote: bool) -> (r: String)
    ensures
        r@ == quoted(s@, quote),
{
    if quote {
        match try_quote(s) {
            Some(q) => q,
            None => String::new(),
        }
    } else {
        s.to_string()
    }
}

/// The words joined with single spaces.
pub open spec fn joined(words: Seq<Seq<char>>) -> Seq<char>
    decreases words.len(),
{
    if words.len() == 0 {
        Seq::empty()
    } else if words.len() == 1 {
        words[0]
    } else {
        joined(words.drop_last()) + seq![' '] + words.last()
    }
}

/// The final component of `path`, or nothing.
pub open spec fn base_name(path: Seq<char>) -> Seq<char> {
    match path_file_name(path) {
        Some(n) => n,
        None => Seq::empty(),
    }
}

/// What a panel contributes to a template.
pub struct TemplatePanel {
    /// The directory of the panel (where its files are).
    pub cwd: String,
    /// The entry under the cursor, if any.
    pub selected: Option<Entry>,
    /// The tagged entries, in the panel's order.
    pub tagged: Vec<Entry>,
}

/// The path of `file` relative to `base`, or nothing when there is none.
pub open spec fn relative_or_empty(file: Seq<char>, base: Seq<char>) -> Seq<char> {
    match path_diff(file, base) {
        Some(p) => p,
        None => Seq::empty(),
    }
}

/// The selected file of a panel relative to `base`, its name without
/// suffix and its suffix, each quoted as asked.
pub open spec fn file_parts(selected: Option<Entry>, base: Seq<char>, quote: bool) -> (Seq<char>, Seq<char>, Seq<char>) {
    match selected {
        Some(e) => (
            quoted(relative_or_empty(e.file@, base), quote),
            quoted(tar_stem_spec(base_name(e.file@)), quote),
            quoted(tar_suffix_spec(base_name(e.file@)), quote),
        ),
        None => (quoted(Seq::empty(), quote), quoted(Seq::empty(), quote), quoted(Seq::empty(), quote)),
    }
}

/// The tagged files relative to `base` (or as they are, without a base),
/// quoted as asked.
pub open spec fn tagged_words(tagged: Seq<Entry>, base: Option<Seq<char>>, quote: bool) -> Seq<Seq<char>> {
    tagged.map_values(
        |e: Entry|
            quoted(
                match base {
                    Some(b) => relative_or_empty(e.file@, b),
                    None => e.file@,
                },
                quote,
            ),
    )
}

/// The paths the template needs can all be made relative: the selected and
/// tagged files of the focused panel to its directory, and the selected file
/// of the other panel to the empty path.
pub open spec fn template_paths_ok(focused: TemplatePanel, other: TemplatePanel) -> bool {
    &&& (focused.selected matches Some(e) ==> path_diff(e.file@, focused.cwd@) is Some)
    &&& (forall|i: int| 0 <= i < focused.tagged@.len() ==> (#[trigger] path_diff(focused.tagged@[i].file@, focused.cwd@)) is Some)
    &&& (other.selected matches Some(e) ==> path_diff(e.file@, Seq::empty()) is Some)
}

/// The replacement of each placeholder.
pub open spec fn template_mapping(
    focused: TemplatePanel,
    other: TemplatePanel,
    mounts: Option<crate::archive_mounter::Mounts>,
    quote: bool,
) -> Seq<(Seq<char>, Seq<char>)> {
    let (f, n, e) = file_parts(focused.selected, focused.cwd@, quote);
    let (of, on, oe) = file_parts(other.selected, Seq::empty(), quote);
    let t = joined(tagged_words(focused.tagged@, Some(focused.cwd@), quote));
    let ot = joined(tagged_words(other.tagged@, None, quote));
    seq![
        (seq!['f'], f),
        (seq!['n'], n),
        (seq!['e'], e),
        (seq!['d'], quoted(focused.cwd@, quote)),
        (seq!['b'], quoted(base_name(shown_path(focused.cwd@, mounts)), quote)),
        (seq!['s'], if t.len() == 0 { f } else { t }),
        (seq!['t'], t),
        (seq!['F'], of),
        (seq!['N'], on),
        (seq!['E'], oe),
        (seq!['D'], quoted(other.cwd@, quote)),
        (seq!['B'], quoted(base_name(shown_path(other.cwd@, mounts)), quote)),
        (seq!['S'], if ot.len() == 0 { of } else { ot }),
        (seq!['T'], ot),
    ]
}

fn name_of(path: &str) -> (r: String)
    ensures
        r@ == base_name(path@),
{
    match crate::paths::file_name(path) {
        Some(n) => n,
        None => String::new(),
    }
}

fn parts_of(selected: &Option<Entry>, base: &str, quote: bool) -> (r: Option<(String, String, String)>)
    ensures
        r is Some <==> (selected matches Some(e) ==> path_diff(e.file@, base@) is Some),
        r matches Some(p) ==> (p.0@, p.1@, p.2@) == file_parts(*selected, base@, quote),
{
    match selected {
        Some(e) => {
            let rel = match relative_to(e.file.as_str(), base) {
                Some(r) => r,
                None => {
                    return None;
                },
            };
            assert(relative_or_empty(e.file@, base@) == rel@);
            let name = name_of(e.file.as_str());
            let stem = tar_stem(name.as_str());
            let suffix = tar_suffix(name.as_str());
            let q = quote_arg(rel.as_str(), quote);
            assert(q@ == quoted(relative_or_empty(e.file@, base@), quote));
            Some((q, quote_arg(stem.as_str(), quote), quote_arg(suffix.as_str(), quote)))
        },
        None => {
            proof {
                reveal_strlit("");
                assert(""@ =~= Seq::<char>::empty());
            }
            Some((quote_arg("", quote), quote_arg("", quote), quote_arg("", quote)))
        },
    }
}

fn join_tagged(tagged: &Vec<Entry>, base: Option<&str>, quote: bool) -> (r: Option<String>)
    ensures
        r is Some <==> (base matches Some(b) ==> forall|i: int|
            0 <= i < tagged@.len() ==> (#[trigger] path_diff(tagged@[i].file@, b@)) is Some),
        r matches Some(s) ==> s@ == joined(
            tagged_words(
                tagged@,
                match base {
                    Some(b) => Some(b@),
                    None => None,
                },
                quote,
            ),
        ),
{
    let ghost b = match base {
        Some(b) => Some(b@),
        None => None,
    };
    let mut out = String::new();
    let mut i: usize = 0;
    while i < tagged.len()
        invariant
            i <= tagged@.len(),
            b == match base {
                Some(x) => Some(x@),
                None => None::<Seq<char>>,
            },
            out@ == joined(tagged_words(tagged@.take(i as int), b, quote)),
            base matches Some(x) ==> forall|k: int| 0 <= k < i ==> (#[trigger] path_diff(tagged@[k].file@, x@)) is Some,
        decreases tagged.len() - i,
    {
        let word = match base {
            Some(x) => match relative_to(tagged[i].file.as_str(), x) {
                Some(r) => r,
                None => {
                    return None;
                },
            },
            None => tagged[i].file.clone(),
        };
        let q = quote_arg(word.as_str(), quote);
        proof {
            let w = tagged_words(tagged@.take(i + 1), b, quote);
            assert(w.drop_last() =~= tagged_words(tagged@.take(i as int), b, quote));
            assert(w.last() == q@);
        }
        if i > 0 {
            push_char(&mut out, ' ');
        } else {
            assert(tagged_words(tagged@.take(0), b, quote) =~= Seq::<Seq<char>>::empty());
        }
        push_str(&mut out, q.as_str());
        proof {
            let w = tagged_words(tagged@.take(i + 1), b, quote);
            if i > 0 {
                assert(out@ =~= joined(w.drop_last()) + seq![' '] + w.last());
            } else {
                assert(out@ =~= w[0]);
            }
        }
        i += 1;
    }
    assert(tagged@.take(i as int) =~= tagged@);
    Some(out)
}

fn base_of(cwd: &str, mounter: Option<&ArchiveMounter>, quote: bool) -> (r: String)
    ensures
        r@ == quoted(base_name(shown_path(cwd@, mounts_of(mounter))), quote),
{
    let shown = match mounter {
        Some(m) => m.archive_path(cwd),
        None => cwd.to_string(),
    };
    let name = name_of(shown.as_str());
    quote_arg(name.as_str(), quote)
}

fn one_letter(c: char) -> (r: String)
    ensures
        r@ == seq![c],
{
    let mut s = String::new();
    push_char(&mut s, c);
    s
}

/// Substitutes the placeholders of `template` (`%f`, `%n`, ... and `%%` for
/// a `%`) with what the focused and the other panel show, each quoted as a
/// shell word when `quote`.  None when a selected or tagged path of the
/// focused panel has no form relative to its directory (or the other panel's
/// selected file none relative to the empty path).
pub fn apply_template(
    template: &str,
    focused: &TemplatePanel,
    other: &TemplatePanel,
    mounter: Option<&ArchiveMounter>,
    quote: bool,
) -> (r: Option<String>)
    ensures
        r is Some <==> template_paths_ok(*focused, *other),
        r matches Some(s) ==> s@ == substitute_spec(
            template@,
            template_mapping(*focused, *other, mounts_of(mounter), quote),
            '%',
        ),
{
    proof {
        reveal_strlit("");
        assert(""@ =~= Seq::<char>::empty());
    }
    let (f, n, e) = match parts_of(&focused.selected, focused.cwd.as_str(), quote) {
        Some(p) => p,
        None => {
            return None;
        },
    };
    let t = match join_tagged(&focused.tagged, Some(focused.cwd.as_str()), quote) {
        Some(t) => t,
        None => {
            return None;
        },
    };
    let (of, on, oe) = match parts_of(&other.selected, "", quote) {
        Some(p) => p,
        None => {
            proof {
                reveal_strlit("");
            }
            return None;
        },
    };
    proof {
        reveal_strlit("");
    }
    let ot = match join_tagged(&other.tagged, None, quote) {
        Some(t) => t,
        None => {
            return None;
        },
    };
    let s = if t.as_str().unicode_len() == 0 { f.clone() } else { t.clone() };
    let os = if ot.as_str().unicode_len() == 0 { of.clone() } else { ot.clone() };
    let mapping: Vec<(String, String)> = vec![
        (one_letter('f'), f),
        (one_letter('n'), n),
        (one_letter('e'), e),
        (one_letter('d'), quote_arg(focused.cwd.as_str(), quote)),
        (one_letter('b'), base_of(focused.cwd.as_str(), mounter, quote)),
        (one_letter('s'), s),
        (one_letter('t'), t),
        (one_letter('F'), of),
        (one_letter('N'), on),
        (one_letter('E'), oe),
        (one_letter('D'), quote_arg(other.cwd.as_str(), quote)),
        (one_letter('B'), base_of(other.cwd.as_str(), mounter, quote)),
        (one_letter('S'), os),
        (one_letter('T'), ot),
    ];
    proof {
        let m = template_mapping(*focused, *other, mounts_of(mounter), quote);
        let v = mapping_view(mapping@);
        assert(mapping@.len() == 14);
        assert(v.len() == m.len());
        assert(v[0] == m[0]);
        assert(v[1] == m[1]);
        assert(v[2] == m[2]);
        assert(v[3] == m[3]);
        assert(v[4] == m[4]);
        assert(v[5] == m[5]);
        assert(v[6] == m[6]);
        assert(v[7] == m[7]);
        assert(v[8] == m[8]);
        assert(v[9] == m[9]);
        assert(v[10] == m[10]);
        assert(v[11] == m[11]);
        assert(v[12] == m[12]);
        assert(v[13] == m[13]);
        assert(v =~= m);
    }
    Some(substitute(template, mapping.as_slice(), '%'))
}

proof fn lemma_lookup_char(m: Seq<(Seq<char>, Seq<char>)>, c: char, i: int)
    requires
        0 <= i < m.len(),
        m[i].0 == seq![c],
        forall|j: int| 0 <= j < i ==> (#[trigger] m[j].0).len() != 1 || m[j].0[0] != c,
    ensures
        lookup(m, seq![c]) == Some(m[i].1),
    decreases i,
{
    if i > 0 {
        assert(m[0].0 != seq![c]) by {
            if m[0].0 == seq![c] {
                assert(m[0].0.len() == 1 && m[0].0[0] == c);
            }
        }
        let t = m.drop_first();
        assert forall|j: int| 0 <= j < i - 1 implies (#[trigger] t[j].0).len() != 1 || t[j].0[0] != c by {
            assert(t[j] == m[j + 1]);
        }
        lemma_lookup_char(t, c, i - 1);
    }
}

/// `%s` and `%S` stand for a panel's selected files: its tagged files when
/// it has any (and they give a non-empty text), else the file under its
/// cursor, as `%f` or `%F`.
pub proof fn law_selected_files(
    focused: TemplatePanel,
    other: TemplatePanel,
    mounts: Option<crate::archive_mounter::Mounts>,
    quote: bool,
)
    ensures
        ({
            let m = template_mapping(focused, other, mounts, quote);
            &&& lookup(m, seq!['F']) is Some
            &&& lookup(m, seq!['f']) is Some
            &&& other.tagged@.len() == 0 ==> lookup(m, seq!['S']) == lookup(m, seq!['F'])
            &&& focused.tagged@.len() == 0 ==> lookup(m, seq!['s']) == lookup(m, seq!['f'])
            &&& (lookup(m, seq!['T']) matches Some(t) && t.len() > 0) ==> lookup(m, seq!['S']) == lookup(m, seq!['T'])
            &&& (lookup(m, seq!['t']) matches Some(t) && t.len() > 0) ==> lookup(m, seq!['s']) == lookup(m, seq!['t'])
        }),
{
    let m = template_mapping(focused, other, mounts, quote);
    assert(m.len() == 14);
    let keys = seq!['f', 'n', 'e', 'd', 'b', 's', 't', 'F', 'N', 'E', 'D', 'B', 'S', 'T'];
    assert forall|j: int| 0 <= j < 14 implies (#[trigger] m[j].0) == seq![keys[j]] by {
        if j == 0 {} else if j == 1 {} else if j == 2 {} else if j == 3 {} else if j == 4 {}
        else if j == 5 {} else if j == 6 {} else if j == 7 {} else if j == 8 {} else if j == 9 {}
        else if j == 10 {} else if j == 11 {} else if j == 12 {} else {}
    }
    assert forall|j: int| 0 <= j < 14 implies (#[trigger] m[j].0).len() == 1 && m[j].0[0] == keys[j] by {
        assert(m[j].0 == seq![keys[j]]);
    }
    lemma_lookup_char(m, 'f', 0);
    lemma_lookup_char(m, 's', 5);
    lemma_lookup_char(m, 't', 6);
    lemma_lookup_char(m, 'F', 7);
    lemma_lookup_char(m, 'S', 12);
    lemma_lookup_char(m, 'T', 13);
    assert(tagged_words(other.tagged@, None, quote).len() == other.tagged@.len());
    assert(tagged_words(focused.tagged@, Some(focused.cwd@), quote).len() == focused.tagged@.len());
}

} // verus!
