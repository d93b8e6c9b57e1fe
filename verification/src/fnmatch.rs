//! Translation of a shell glob pattern to a regular expression, as Python's
//! `fnmatch.translate` does it, and the matching of names against it.

use vstd::prelude::*;
use regex::Regex;
use crate::strings::{chars_of, push_char, push_str};

verus! {

broadcast use vstd::string::group_string_axioms;

/// The characters that `regex::escape` precedes with a backslash.
pub open spec fn is_meta_character(c: char) -> bool {
    c == '\\' || c == '.' || c == '+' || c == '*' || c == '?' || c == '(' || c == ')' || c == '|'
        || c == '[' || c == ']' || c == '{' || c == '}' || c == '^' || c == '$' || c == '#'
        || c == '&' || c == '-' || c == '~'
}

/// The escaped form of one character.
pub open spec fn escape_char(c: char) -> Seq<char> {
    if is_meta_character(c) { seq!['\\', c] } else { seq![c] }
}

/// What `regex::escape` returns: every meta character preceded by a backslash.
pub open spec fn regex_escape_spec(s: Seq<char>) -> Seq<char>
    decreases s.len(),
{
    if s.len() == 0 {
        Seq::empty()
    } else {
        regex_escape_spec(s.drop_last()) + escape_char(s.last())
    }
}

/// Trusted: calls `regex::escape`, which (per its source, `regex_syntax::escape`)
/// precedes each meta character of `text` with a backslash and keeps every
/// other character.
#[verifier::external_body]
pub(crate) fn regex_escape(text: &str) -> (r: String)
    ensures
        r@ == regex_escape_spec(text@),
{
    regex::escape(text)
}

/// Every backslash doubled.
pub open spec fn double_backslashes(s: Seq<char>) -> Seq<char>
    decreases s.len(),
{
    if s.len() == 0 {
        Seq::empty()
    } else {
        double_backslashes(s.drop_last()) + if s.last() == '\\' {
            seq!['\\', '\\']
        } else {
            seq![s.last()]
        }
    }
}

/// The first `]` at or after `k`, or the end of the pattern.
pub open spec fn find_close(pat: Seq<char>, k: int) -> int
    decreases pat.len() - k,
{
    if k >= pat.len() {
        pat.len() as int
    } else if pat[k] == ']' {
        k
    } else {
        find_close(pat, k + 1)
    }
}

/// Where the bracket expression opened at `i` closes: a leading `!`, and then
/// a leading `]`, belong to the expression.
pub open spec fn bracket_close(pat: Seq<char>, i: int) -> int {
    let j0 = i + 1;
    let j1 = if j0 < pat.len() && pat[j0] == '!' { j0 + 1 } else { j0 };
    let j2 = if j1 < pat.len() && pat[j1] == ']' { j1 + 1 } else { j1 };
    find_close(pat, j2)
}

/// The regular expression class for the bracket expression `pat[i..=j]`:
/// backslashes doubled, a leading `!` turned into `^`, a leading `^` escaped.
pub open spec fn bracket_class(pat: Seq<char>, i: int, j: int) -> Seq<char> {
    let stuff = double_backslashes(pat.subrange(i + 1, j));
    if stuff[0] == '!' {
        seq!['['] + seq!['^'] + stuff.skip(1) + seq![']']
    } else if stuff[0] == '^' {
        seq!['[', '\\'] + stuff + seq![']']
    } else {
        seq!['['] + stuff + seq![']']
    }
}

/// The translation of the pattern from position `i` on.
pub open spec fn translate_from(pat: Seq<char>, i: int) -> Seq<char>
    decreases pat.len() - i,
{
    if i < 0 || i >= pat.len() {
        Seq::empty()
    } else if pat[i] == '*' {
        seq!['.', '*'] + translate_from(pat, i + 1)
    } else if pat[i] == '?' {
        seq!['.'] + translate_from(pat, i + 1)
    } else if pat[i] == '[' {
        let j = bracket_close(pat, i);
        if j >= pat.len() {
            seq!['\\', '['] + translate_from(pat, i + 1)
        } else if j > i {
            bracket_class(pat, i, j) + translate_from(pat, j + 1)
        } else {
            Seq::empty()
        }
    } else {
        regex_escape_spec(seq![pat[i]]) + translate_from(pat, i + 1)
    }
}

/// The regular expression, anchored at the end and matching newlines with `.`.
pub open spec fn translate_spec(pat: Seq<char>) -> Seq<char> {
    "(?s:"@ + translate_from(pat, 0) + ")\\z"@
}

proof fn lemma_find_close(pat: Seq<char>, k: int)
    requires
        0 <= k,
    ensures
        k <= find_close(pat, k) || (k > pat.len() && find_close(pat, k) == pat.len()),
        find_close(pat, k) <= pat.len() || k > pat.len(),
        find_close(pat, k) < pat.len() ==> pat[find_close(pat, k)] == ']',
    decreases pat.len() - k,
{
    if k < pat.len() && pat[k] != ']' {
        lemma_find_close(pat, k + 1);
    }
}

fn double_backslashes_exec(v: &Vec<char>, from: usize, to: usize) -> (r: Vec<char>)
    requires
        from <= to <= v@.len(),
    ensures
        r@ == double_backslashes(v@.subrange(from as int, to as int)),
{
    let mut r: Vec<char> = Vec::new();
    let mut i = from;
    assert(v@.subrange(from as int, from as int) =~= Seq::<char>::empty());
    while i < to
        invariant
            from <= i <= to,
            to <= v@.len(),
            r@ == double_backslashes(v@.subrange(from as int, i as int)),
        decreases to - i,
    {
        proof {
            let s = v@.subrange(from as int, i + 1);
            assert(s.drop_last() =~= v@.subrange(from as int, i as int));
            assert(s.last() == v@[i as int]);
        }
        let ghost before = r@;
        if v[i] == '\\' {
            r.push('\\');
            r.push('\\');
            assert(r@ =~= before + seq!['\\', '\\']);
        } else {
            r.push(v[i]);
            assert(r@ =~= before + seq![v@[i as int]]);
        }
        i += 1;
    }
    r
}

fn push_chars(s: &mut String, v: &Vec<char>, from: usize)
    requires
        from <= v@.len(),
    ensures
        final(s)@ == old(s)@ + v@.skip(from as int),
{
    let mut i = from;
    assert(v@.subrange(from as int, from as int) =~= Seq::<char>::empty());
    while i < v.len()
        invariant
            from <= i <= v@.len(),
            s@ == old(s)@ + v@.subrange(from as int, i as int),
        decreases v.len() - i,
    {
        push_char(s, v[i]);
        assert(v@.subrange(from as int, i + 1) =~= v@.subrange(from as int, i as int).push(
            v@[i as int],
        ));
        i += 1;
    }
    assert(v@.subrange(from as int, i as int) =~= v@.skip(from as int));
}

/// Translates a shell pattern (`*`, `?`, `[...]`, `[!...]`) to a regular
/// expression that matches the whole of a string.
pub fn translate(pattern: &str) -> (res: String)
    ensures
        res@ == translate_spec(pattern@),
{
    proof {
        reveal_strlit("(?s:");
        reveal_strlit(")\\z");
    }
    let pat = chars_of(pattern);
    let n = pat.len();
    let mut res = String::new();
    let mut i: usize = 0;
    while i < n
        invariant
            n == pat@.len(),
            pat@ == pattern@,
            i <= n,
            translate_from(pat@, 0) == res@ + translate_from(pat@, i as int),
        decreases n - i,
    {
        let ghost before = res@;
        let c = pat[i];
        if c == '*' {
            push_char(&mut res, '.');
            push_char(&mut res, '*');
            assert(res@ =~= before + seq!['.', '*']);
            i += 1;
        } else if c == '?' {
            push_char(&mut res, '.');
            assert(res@ =~= before + seq!['.']);
            i += 1;
        } else if c == '[' {
            let mut j = i + 1;
            if j < n && pat[j] == '!' {
                j += 1;
            }
            if j < n && pat[j] == ']' {
                j += 1;
            }
            let ghost j2 = j as int;
            while j < n && pat[j] != ']'
                invariant
                    i < j2 <= j <= n,
                    n == pat@.len(),
                    find_close(pat@, j2) == find_close(pat@, j as int),
                decreases n - j,
            {
                j += 1;
            }
            proof {
                assert(find_close(pat@, j2) == j as int);
                assert(bracket_close(pat@, i as int) == j as int);
            }
            if j >= n {
                push_char(&mut res, '\\');
                push_char(&mut res, '[');
                assert(res@ =~= before + seq!['\\', '[']);
                i += 1;
            } else {
                let stuff = double_backslashes_exec(&pat, i + 1, j);
                proof {
                    assert(j > i + 1);
                    assert(stuff@.len() >= 1) by {
                        lemma_double_backslashes_len(pat@.subrange(i + 1, j as int));
                    }
                }
                push_char(&mut res, '[');
                if stuff[0] == '!' {
                    push_char(&mut res, '^');
                    push_chars(&mut res, &stuff, 1);
                } else if stuff[0] == '^' {
                    push_char(&mut res, '\\');
                    push_chars(&mut res, &stuff, 0);
                    assert(stuff@.skip(0) =~= stuff@);
                } else {
                    push_chars(&mut res, &stuff, 0);
                    assert(stuff@.skip(0) =~= stuff@);
                }
                push_char(&mut res, ']');
                assert(res@ =~= before + bracket_class(pat@, i as int, j as int));
                i = j + 1;
            }
        } else {
            let mut one = String::new();
            push_char(&mut one, c);
            let escaped = regex_escape(one.as_str());
            push_str(&mut res, escaped.as_str());
            assert(one@ =~= seq![c]);
            i += 1;
        }
    }
    let mut out = String::new();
    push_str(&mut out, "(?s:");
    push_str(&mut out, res.as_str());
    push_str(&mut out, ")\\z");
    assert(res@ + translate_from(pat@, n as int) =~= res@);
    out
}

proof fn lemma_double_backslashes_len(s: Seq<char>)
    ensures
        double_backslashes(s).len() >= s.len(),
    decreases s.len(),
{
    if s.len() > 0 {
        lemma_double_backslashes_len(s.drop_last());
    }
}


#[verifier::external_type_specification]
#[verifier::external_body]
pub struct ExRegex(regex::Regex);

/// `RegexBuilder::build` with `case_insensitive(ci)`: the pattern is a valid
/// regular expression within the builder's default limits.
pub uninterp spec fn regex_compiles(pattern: Seq<char>, ci: bool) -> bool;

/// `Regex::is_match` of the regular expression compiled from `pattern` with
/// `case_insensitive(ci)`: it matches somewhere in `text`.
pub uninterp spec fn regex_matches(pattern: Seq<char>, ci: bool, text: Seq<char>) -> bool;

/// Trusted: compiles `pattern` with `RegexBuilder`, case insensitive when
/// `ci`.  The result is there exactly when the named `regex_compiles` holds.
#[verifier::external_body]
fn compile_regex(pattern: &str, ci: bool) -> (r: Option<Regex>)
    ensures
        r is Some <==> regex_compiles(pattern@, ci),
{
    regex::RegexBuilder::new(pattern).case_insensitive(ci).build().ok()
}

/// A compiled regular expression, with the pattern and the case setting it
/// was compiled from.
pub struct RegexMatcher {
    pattern: String,
    ci: bool,
    re: Regex,
}

impl RegexMatcher {
    /// The pattern it was compiled from.
    pub closed spec fn pattern(&self) -> Seq<char> {
        self.pattern@
    }

    /// It ignores case.
    pub closed spec fn ignores_case(&self) -> bool {
        self.ci
    }

    /// Compiles `pattern`, ignoring case when `ci`; none when it is not a
    /// valid regular expression.
    pub fn new(pattern: &str, ci: bool) -> (r: Option<RegexMatcher>)
        ensures
            r is Some <==> regex_compiles(pattern@, ci),
            r matches Some(m) ==> m.pattern() == pattern@ && m.ignores_case() == ci,
    {
        match compile_regex(pattern, ci) {
            Some(re) => Some(RegexMatcher { pattern: pattern.to_string(), ci, re }),
            None => None,
        }
    }

    /// Compiles the regular expression a glob translates to, ignoring case.
    pub fn glob(glob: &str) -> (r: Option<RegexMatcher>)
        ensures
            r is Some <==> regex_compiles(translate_spec(glob@), true),
            r matches Some(m) ==> m.pattern() == translate_spec(glob@) && m.ignores_case(),
    {
        let pattern = translate(glob);
        RegexMatcher::new(pattern.as_str(), true)
    }

    /// Trusted: calls `Regex::is_match` on the regular expression compiled in
    /// `new`; the result is the named `regex_matches` of its pattern and case
    /// setting.
    #[verifier::external_body]
    pub(crate) fn is_match(&self, text: &str) -> (r: bool)
        ensures
            r == regex_matches(self.pattern(), self.ignores_case(), text@),
    {
        self.re.is_match(text)
    }
}

} // verus!
