//! The fuzzy file finder: the files found under a directory, level by
//! level, ranked by how well their paths relative to it match a pattern.
//! Reading each directory is the caller's.

use vstd::prelude::*;
use vstd::relations::{sorted_by, total_ordering};
use crate::paths::{file_name, path_diff, path_file_name, relative_to};
use crate::entry::{Entry, HiddenFiles};
use crate::panel::{clamp_cursor_spec, sat_add, sat_sub};
use crate::text_view::{clamp_first_line, clamp_first_line_spec, clamp_list_cursor};
use nucleo_matcher::pattern::{CaseMatching, Normalization, Pattern};
use nucleo_matcher::{Config, Matcher, Utf32Str};

verus! {

broadcast use vstd::string::group_string_axioms;

/// `Pattern::score` of `pattern` (parsed ignoring case, with smart
/// normalization) against `text`, with the path matching configuration:
/// none when it does not match.
pub uninterp spec fn nucleo_path_score(pattern: Seq<char>, text: Seq<char>) -> Option<u32>;

/// `Utf32Str::len`: the number of characters the matcher sees in `text`.
pub uninterp spec fn nucleo_char_count(text: Seq<char>) -> usize;

/// Trusted: scores `text` with a `Pattern` parsed from `pattern`
/// (`CaseMatching::Ignore`, `Normalization::Smart`) and a `Matcher` with
/// `Config::DEFAULT.match_paths()`; the result is the named
/// `nucleo_path_score`.
#[verifier::external_body]
fn path_score(pattern: &str, text: &str) -> (r: Option<u32>)
    ensures
        r == nucleo_path_score(pattern@, text@),
{
    let mut matcher = Matcher::new(Config::DEFAULT.match_paths());
    let mut buf = Vec::new();
    Pattern::parse(pattern, CaseMatching::Ignore, Normalization::Smart).score(Utf32Str::new(text, &mut buf), &mut matcher)
}

/// Trusted: the length of `Utf32Str::new(text)`; the result is the named
/// `nucleo_char_count`.
#[verifier::external_body]
fn char_count(text: &str) -> (r: usize)
    ensures
        r == nucleo_char_count(text@),
{
    let mut buf = Vec::new();
    Utf32Str::new(text, &mut buf).len()
}

/// A match: its score, the length of the path it matched, and the index of
/// the file.
pub type Ranked = (u32, usize, usize);

/// `a` comes before `b`: a higher score first, then a shorter path, then the
/// earlier file.
pub open spec fn rank_leq(a: Ranked, b: Ranked) -> bool {
    a.0 > b.0 || (a.0 == b.0 && (a.1 < b.1 || (a.1 == b.1 && a.2 <= b.2)))
}

/// The path of `file` relative to `cwd`, or the empty path where there is
/// none.
pub open spec fn relative_name(file: Seq<char>, cwd: Seq<char>) -> Seq<char> {
    match path_diff(file, cwd) {
        Some(p) => p,
        None => Seq::empty(),
    }
}

/// The matches among the first `n` files, in file order.
pub open spec fn matches_upto(files: Seq<(String, bool)>, cwd: Seq<char>, pattern: Seq<char>, n: int) -> Seq<Ranked>
    decreases n,
{
    if n <= 0 {
        Seq::empty()
    } else {
        let rest = matches_upto(files, cwd, pattern, n - 1);
        let name = relative_name(files[n - 1].0@, cwd);
        match nucleo_path_score(pattern, name) {
            Some(score) => rest.push((score, nucleo_char_count(name), (n - 1) as usize)),
            None => rest,
        }
    }
}

/// Every file has a path relative to `cwd`.
pub open spec fn all_relative(files: Seq<(String, bool)>, cwd: Seq<char>) -> bool {
    forall|i: int| 0 <= i < files.len() ==> (#[trigger] path_diff(files[i].0@, cwd)) is Some
}

/// The files the pattern matches, best first.
pub open spec fn ranked_files(files: Seq<(String, bool)>, cwd: Seq<char>, pattern: Seq<char>) -> Seq<(String, bool)> {
    matches_upto(files, cwd, pattern, files.len() as int).sort_by(|a: Ranked, b: Ranked| rank_leq(a, b)).map_values(
        |m: Ranked| files[m.2 as int],
    )
}

proof fn lemma_rank_total()
    ensures
        total_ordering(|a: Ranked, b: Ranked| rank_leq(a, b)),
{
}

fn ranks_before(a: Ranked, b: Ranked) -> (r: bool)
    ensures
        r == rank_leq(a, b),
{
    a.0 > b.0 || (a.0 == b.0 && (a.1 < b.1 || (a.1 == b.1 && a.2 <= b.2)))
}

proof fn lemma_insert_multiset(s: Seq<Ranked>, p: int, x: Ranked)
    requires
        0 <= p <= s.len(),
    ensures
        s.insert(p, x).to_multiset() =~= s.to_multiset().insert(x),
{
    broadcast use vstd::seq_lib::group_to_multiset_ensures;
    broadcast use vstd::multiset::group_multiset_axioms;
    let t = s.insert(p, x);
    assert(t.remove(p) =~= s);
    assert(t[p] == x);
    assert(t.to_multiset().count(x) > 0) by {
        assert(t.contains(x));
    }
}

/// Sorts the matches best first.
fn sort_ranked(v: &Vec<Ranked>) -> (out: Vec<Ranked>)
    ensures
        out@.to_multiset() == v@.to_multiset(),
        sorted_by(out@, |a: Ranked, b: Ranked| rank_leq(a, b)),
{
    broadcast use vstd::seq_lib::group_to_multiset_ensures;
    let ghost leq = |a: Ranked, b: Ranked| rank_leq(a, b);
    let mut out: Vec<Ranked> = Vec::new();
    let mut i: usize = 0;
    assert(v@.take(0) =~= Seq::<Ranked>::empty());
    while i < v.len()
        invariant
            i <= v@.len(),
            out@.to_multiset() == v@.take(i as int).to_multiset(),
            sorted_by(out@, leq),
            leq == (|a: Ranked, b: Ranked| rank_leq(a, b)),
        decreases v.len() - i,
    {
        let x = v[i];
        let mut p: usize = 0;
        while p < out.len() && ranks_before(out[p], x)
            invariant
                p <= out@.len(),
                forall|k: int| 0 <= k < p ==> rank_leq(#[trigger] out@[k], x),
            decreases out.len() - p,
        {
            p += 1;
        }
        proof {
            lemma_insert_multiset(out@, p as int, x);
            assert(v@.take(i + 1) =~= v@.take(i as int).push(x));
            v@.take(i as int).to_multiset_ensures();
            assert(v@.take(i as int).push(x).to_multiset() =~= v@.take(i as int).to_multiset().insert(x));
            let t = out@.insert(p as int, x);
            assert forall|a: int, b: int| 0 <= a < b < t.len() implies #[trigger] leq(t[a], t[b]) by {
                if b == p {
                    assert(t[a] == out@[a]);
                } else if a == p {
                    assert(t[b] == out@[b - 1]);
                    if p < out@.len() {
                        assert(!rank_leq(out@[p as int], x));
                        if b - 1 > p {
                            assert(leq(out@[p as int], out@[b - 1]));
                        }
                    }
                } else {
                    let a0 = if a < p { a } else { a - 1 };
                    let b0 = if b < p { b } else { b - 1 };
                    assert(t[a] == out@[a0]);
                    assert(t[b] == out@[b0]);
                    assert(leq(out@[a0], out@[b0]));
                }
            }
        }
        out.insert(p, x);
        i += 1;
    }
    assert(v@.take(i as int) =~= v@);
    out
}

/// The files the pattern matches, best first: a higher score first, then a
/// shorter relative path, then the earlier file.  None when a file has no
/// path relative to `cwd`.
pub fn filter_entries(cwd: &str, files: &[(String, bool)], pattern: &str) -> (r: Option<Vec<(String, bool)>>)
    ensures
        r is Some <==> all_relative(files@, cwd@),
        r matches Some(v) ==> v@ == ranked_files(files@, cwd@, pattern@),
{
    let mut matched: Vec<Ranked> = Vec::new();
    let mut i: usize = 0;
    while i < files.len()
        invariant
            i <= files@.len(),
            matched@ == matches_upto(files@, cwd@, pattern@, i as int),
            forall|k: int| 0 <= k < i ==> (#[trigger] path_diff(files@[k].0@, cwd@)) is Some,
            forall|k: int| 0 <= k < matched@.len() ==> (#[trigger] matched@[k]).2 < i,
        decreases files.len() - i,
    {
        let name = match relative_to(files[i].0.as_str(), cwd) {
            Some(n) => n,
            None => {
                return None;
            },
        };
        match path_score(pattern, name.as_str()) {
            Some(score) => {
                let len = char_count(name.as_str());
                matched.push((score, len, i));
            },
            None => {},
        }
        i += 1;
    }
    let ranked = sort_ranked(&matched);
    proof {
        lemma_rank_total();
        let leq = |a: Ranked, b: Ranked| rank_leq(a, b);
        matched@.lemma_sort_by_ensures(leq);
        vstd::seq_lib::lemma_sorted_unique(ranked@, matched@.sort_by(leq), leq);
        assert forall|m: int| 0 <= m < ranked@.len() implies (#[trigger] ranked@[m]).2 < files@.len() by {
            broadcast use vstd::seq_lib::group_to_multiset_ensures;
            assert(ranked@.contains(ranked@[m]));
            assert(ranked@.to_multiset().count(ranked@[m]) > 0);
            assert(matched@.contains(ranked@[m]));
        }
    }
    let mut out: Vec<(String, bool)> = Vec::new();
    let mut k: usize = 0;
    while k < ranked.len()
        invariant
            k <= ranked@.len(),
            out@.len() == k,
            forall|m: int| 0 <= m < k ==> #[trigger] out@[m] == files@[ranked@[m].2 as int],
            forall|m: int| 0 <= m < ranked@.len() ==> (#[trigger] ranked@[m]).2 < files@.len(),
        decreases ranked.len() - k,
    {
        let idx = ranked[k].2;
        out.push((files[idx].0.clone(), files[idx].1));
        k += 1;
    }
    assert(out@ =~= ranked_files(files@, cwd@, pattern@));
    Some(out)
}


proof fn lemma_matches_upto_scores(files: Seq<(String, bool)>, cwd: Seq<char>, pattern: Seq<char>, n: int)
    requires
        0 <= n <= files.len(),
        files.len() <= usize::MAX,
    ensures
        forall|k: int|
            0 <= k < matches_upto(files, cwd, pattern, n).len() ==> {
                let m = #[trigger] matches_upto(files, cwd, pattern, n)[k];
                &&& 0 <= m.2 < n
                &&& nucleo_path_score(pattern, relative_name(files[m.2 as int].0@, cwd)) == Some(m.0)
            },
    decreases n,
{
    if n > 0 {
        lemma_matches_upto_scores(files, cwd, pattern, n - 1);
        let rest = matches_upto(files, cwd, pattern, n - 1);
        let name = relative_name(files[n - 1].0@, cwd);
        match nucleo_path_score(pattern, name) {
            Some(score) => {
                let m = rest.push((score, nucleo_char_count(name), (n - 1) as usize));
                assert forall|k: int| 0 <= k < m.len() implies {
                    let x = #[trigger] m[k];
                    &&& 0 <= x.2 < n
                    &&& nucleo_path_score(pattern, relative_name(files[x.2 as int].0@, cwd)) == Some(x.0)
                } by {
                    if k < rest.len() {
                        assert(m[k] == rest[k]);
                    } else {
                        assert(m[k] == (score, nucleo_char_count(name), (n - 1) as usize));
                        assert(((n - 1) as usize) as int == n - 1);
                    }
                }
            },
            None => {},
        }
    }
}

/// The finder ranks best first: every file it gives matches the pattern,
/// and a file stands before another only if its score is at least as high.
pub proof fn law_ranked_best_first(files: Seq<(String, bool)>, cwd: Seq<char>, pattern: Seq<char>, i: int, j: int)
    requires
        files.len() <= usize::MAX,
        0 <= i < j < ranked_files(files, cwd, pattern).len(),
    ensures
        ({
            let v = ranked_files(files, cwd, pattern);
            let si = nucleo_path_score(pattern, relative_name(v[i].0@, cwd));
            let sj = nucleo_path_score(pattern, relative_name(v[j].0@, cwd));
            &&& si is Some
            &&& sj is Some
            &&& si.unwrap() >= sj.unwrap()
        }),
{
    broadcast use vstd::seq_lib::group_to_multiset_ensures;

    let leq = |a: Ranked, b: Ranked| rank_leq(a, b);
    let m = matches_upto(files, cwd, pattern, files.len() as int);
    lemma_rank_total();
    m.lemma_sort_by_ensures(leq);
    let srt = m.sort_by(leq);
    lemma_matches_upto_scores(files, cwd, pattern, files.len() as int);
    assert(leq(srt[i], srt[j]));
    assert(srt.contains(srt[i]) && srt.contains(srt[j]));
    assert(srt.to_multiset().count(srt[i]) > 0 && srt.to_multiset().count(srt[j]) > 0);
    assert(m.contains(srt[i]) && m.contains(srt[j]));
    let ki = choose|k: int| 0 <= k < m.len() && m[k] == srt[i];
    let kj = choose|k: int| 0 <= k < m.len() && m[k] == srt[j];
    assert(m[ki] == srt[i]);
    assert(m[kj] == srt[j]);
}

proof fn lemma_matches_upto_has(files: Seq<(String, bool)>, cwd: Seq<char>, pattern: Seq<char>, n: int, k: int)
    requires
        0 <= k < n <= files.len(),
        nucleo_path_score(pattern, relative_name(files[k].0@, cwd)) is Some,
    ensures
        matches_upto(files, cwd, pattern, n).contains(
            (
                nucleo_path_score(pattern, relative_name(files[k].0@, cwd)).unwrap(),
                nucleo_char_count(relative_name(files[k].0@, cwd)),
                k as usize,
            ),
        ),
    decreases n,
{
    let rest = matches_upto(files, cwd, pattern, n - 1);
    let x = (
        nucleo_path_score(pattern, relative_name(files[k].0@, cwd)).unwrap(),
        nucleo_char_count(relative_name(files[k].0@, cwd)),
        k as usize,
    );
    if k < n - 1 {
        lemma_matches_upto_has(files, cwd, pattern, n - 1, k);
        let i = choose|i: int| 0 <= i < rest.len() && rest[i] == x;
        let name = relative_name(files[n - 1].0@, cwd);
        match nucleo_path_score(pattern, name) {
            Some(score) => {
                assert(rest.push((score, nucleo_char_count(name), (n - 1) as usize))[i] == x);
            },
            None => {},
        }
    } else {
        let name = relative_name(files[n - 1].0@, cwd);
        let score = nucleo_path_score(pattern, name).unwrap();
        assert(rest.push((score, nucleo_char_count(name), (n - 1) as usize))[rest.len() as int] == x);
    }
}

/// Every file that the pattern matches is among the files the finder
/// gives.
pub proof fn law_ranked_complete(files: Seq<(String, bool)>, cwd: Seq<char>, pattern: Seq<char>, k: int)
    requires
        0 <= k < files.len() <= usize::MAX,
        nucleo_path_score(pattern, relative_name(files[k].0@, cwd)) is Some,
    ensures
        exists|i: int| 0 <= i < ranked_files(files, cwd, pattern).len() && ranked_files(files, cwd, pattern)[i] == files[k],
{
    broadcast use vstd::seq_lib::group_to_multiset_ensures;

    let leq = |a: Ranked, b: Ranked| rank_leq(a, b);
    let m = matches_upto(files, cwd, pattern, files.len() as int);
    lemma_rank_total();
    m.lemma_sort_by_ensures(leq);
    let srt = m.sort_by(leq);
    lemma_matches_upto_has(files, cwd, pattern, files.len() as int, k);
    let x = (
        nucleo_path_score(pattern, relative_name(files[k].0@, cwd)).unwrap(),
        nucleo_char_count(relative_name(files[k].0@, cwd)),
        k as usize,
    );
    assert(m.to_multiset().count(x) > 0);
    assert(srt.contains(x));
    let i = choose|i: int| 0 <= i < srt.len() && srt[i] == x;
    let v = ranked_files(files, cwd, pattern);
    assert(v[i] == files[(k as usize) as int]);
    assert(v[i] == files[k]);
}

/// A key in the finder, once the input line has not taken it.
#[derive(Debug, Clone, Copy, PartialEq, Eq, Structural)]
pub enum FzfKey {
    Char(char),
    Ctrl(char),
    F(u8),
    Esc,
    Up,
    Down,
    Home,
    End,
    PageUp,
    PageDown,
    Other,
}

/// What the finder asks of the caller after a key.
#[derive(Debug)]
pub enum FzfAction {
    /// The key is not the finder's.
    Unhandled,
    Nothing,
    /// Close the finder.
    Close,
    /// Close the finder and select the file.
    Select(String),
}

/// The ranked list of the finder, shown best match at the bottom: the
/// cursor counts from the bottom.
pub struct FzfList {
    /// The files shown, best first, each with whether it is a directory.
    pub entries: Vec<(String, bool)>,
    pub cursor: usize,
    pub first_line: usize,
    pub height: usize,
}

impl FzfList {
    /// The cursor is on an entry, or at 0 when there is none.
    pub open spec fn wf(&self) -> bool {
        if self.entries@.len() == 0 {
            self.cursor == 0
        } else {
            self.cursor < self.entries@.len()
        }
    }

    /// An empty list of `height` lines.
    pub fn new(height: usize) -> (r: FzfList)
        ensures
            r.wf(),
            r.entries@.len() == 0,
            r.cursor == 0,
            r.first_line == 0,
            r.height == height,
    {
        FzfList { entries: Vec::new(), cursor: 0, first_line: 0, height }
    }

    /// Shows newly ranked files, keeping the cursor on an entry.
    pub fn set_entries(&mut self, entries: Vec<(String, bool)>)
        ensures
            final(self).wf(),
            final(self).entries@ == entries@,
            final(self).cursor == clamp_cursor_spec(old(self).cursor as int, entries@.len() as int),
            final(self).first_line == old(self).first_line,
            final(self).height == old(self).height,
    {
        self.cursor = clamp_list_cursor(self.cursor, entries.len());
        self.entries = entries;
    }

    /// Handles a key the input line did not take.
    pub fn handle_key(&mut self, key: FzfKey) -> (a: FzfAction)
        requires
            old(self).wf(),
        ensures
            final(self).wf(),
            final(self).entries == old(self).entries,
            final(self).height == old(self).height,
            ({
                let len = old(self).entries@.len() as int;
                let page = sat_sub(old(self).height as int, 1);
                let c = old(self).cursor as int;
                let f = old(self).first_line as int;
                match key {
                    FzfKey::Esc | FzfKey::F(10) | FzfKey::Char('q') | FzfKey::Char('Q') | FzfKey::Char('0') => {
                        a is Close && final(self).cursor == c && final(self).first_line == f
                    },
                    FzfKey::Char('\n') | FzfKey::Char(' ') => {
                        &&& final(self).cursor == c
                        &&& final(self).first_line == f
                        &&& if len == 0 {
                            a is Close
                        } else {
                            a matches FzfAction::Select(file) && file@ == old(self).entries@[c].0@
                        }
                    },
                    FzfKey::Up | FzfKey::Char('k') => {
                        a is Nothing && final(self).cursor == clamp_cursor_spec(sat_add(c, 1), len)
                            && final(self).first_line == f
                    },
                    FzfKey::Down | FzfKey::Char('j') => {
                        a is Nothing && final(self).cursor == clamp_cursor_spec(sat_sub(c, 1), len)
                            && final(self).first_line == f
                    },
                    FzfKey::Home | FzfKey::Char('g') => {
                        a is Nothing && final(self).cursor == clamp_cursor_spec(len, len)
                            && final(self).first_line == f
                    },
                    FzfKey::End | FzfKey::Char('G') => {
                        a is Nothing && final(self).cursor == 0 && final(self).first_line == f
                    },
                    FzfKey::PageUp | FzfKey::Ctrl('b') => {
                        &&& a is Nothing
                        &&& final(self).cursor == clamp_cursor_spec(sat_add(c, page), len)
                        &&& final(self).first_line == clamp_first_line_spec(sat_add(f, page), old(self).height as int, len)
                    },
                    FzfKey::PageDown | FzfKey::Ctrl('f') => {
                        &&& a is Nothing
                        &&& final(self).cursor == clamp_cursor_spec(sat_sub(c, page), len)
                        &&& final(self).first_line == clamp_first_line_spec(sat_sub(f, page), old(self).height as int, len)
                    },
                    FzfKey::Ctrl('c') | FzfKey::Ctrl('l') | FzfKey::Ctrl('z') | FzfKey::Ctrl('o') => {
                        a is Unhandled && final(self).cursor == c && final(self).first_line == f
                    },
                    _ => a is Nothing && final(self).cursor == c && final(self).first_line == f,
                }
            }),
    {
        let len = self.entries.len();
        let page = self.height.saturating_sub(1);
        match key {
            FzfKey::Esc | FzfKey::F(10) | FzfKey::Char('q') | FzfKey::Char('Q') | FzfKey::Char('0') => {
                FzfAction::Close
            },
            FzfKey::Char('\n') | FzfKey::Char(' ') => {
                if len == 0 {
                    FzfAction::Close
                } else {
                    FzfAction::Select(self.entries[self.cursor].0.clone())
                }
            },
            FzfKey::Up | FzfKey::Char('k') => {
                self.cursor = clamp_list_cursor(self.cursor.saturating_add(1), len);
                FzfAction::Nothing
            },
            FzfKey::Down | FzfKey::Char('j') => {
                self.cursor = clamp_list_cursor(self.cursor.saturating_sub(1), len);
                FzfAction::Nothing
            },
            FzfKey::Home | FzfKey::Char('g') => {
                self.cursor = clamp_list_cursor(len, len);
                FzfAction::Nothing
            },
            FzfKey::End | FzfKey::Char('G') => {
                self.cursor = 0;
                FzfAction::Nothing
            },
            FzfKey::PageUp | FzfKey::Ctrl('b') => {
                self.cursor = clamp_list_cursor(self.cursor.saturating_add(page), len);
                self.first_line = clamp_first_line(self.first_line.saturating_add(page), self.height, len);
                FzfAction::Nothing
            },
            FzfKey::PageDown | FzfKey::Ctrl('f') => {
                self.cursor = clamp_list_cursor(self.cursor.saturating_sub(page), len);
                self.first_line = clamp_first_line(self.first_line.saturating_sub(page), self.height, len);
                FzfAction::Nothing
            },
            FzfKey::Ctrl('c') | FzfKey::Ctrl('l') | FzfKey::Ctrl('z') | FzfKey::Ctrl('o') => {
                FzfAction::Unhandled
            },
            _ => FzfAction::Nothing,
        }
    }
}


/// A name that starts with a dot is hidden.
pub open spec fn dot_name(name: Seq<char>) -> bool {
    name.len() > 0 && name[0] == '.'
}

fn starts_with_dot(name: &str) -> (r: bool)
    ensures
        r == dot_name(name@),
{
    let v = crate::strings::chars_of(name);
    v.len() > 0 && v[0] == '.'
}

/// The files of the panel the finder starts from, each with whether it is
/// a directory: all of them, or those whose sort key does not start with a
/// dot when hidden files are hidden.
pub open spec fn initial_spec(list: Seq<Entry>, hidden_files: HiddenFiles) -> Seq<(Seq<char>, bool)>
    decreases list.len(),
{
    if list.len() == 0 {
        Seq::empty()
    } else {
        let before = initial_spec(list.drop_last(), hidden_files);
        let e = list.last();
        if hidden_files == HiddenFiles::Hide && dot_name(e.key@) {
            before
        } else {
            before.push((e.file@, e.is_dir))
        }
    }
}

/// The views of the finder's entries.
pub open spec fn pairs_view(s: Seq<(String, bool)>) -> Seq<(Seq<char>, bool)> {
    s.map_values(|p: (String, bool)| (p.0@, p.1))
}

pub fn initial_entries(list: &[Entry], hidden_files: HiddenFiles) -> (r: Vec<(String, bool)>)
    ensures
        pairs_view(r@) == initial_spec(list@, hidden_files),
{
    let mut r: Vec<(String, bool)> = Vec::new();
    let mut i: usize = 0;
    while i < list.len()
        invariant
            i <= list@.len(),
            pairs_view(r@) == initial_spec(list@.take(i as int), hidden_files),
        decreases list.len() - i,
    {
        proof {
            assert(list@.take(i + 1).drop_last() =~= list@.take(i as int));
            assert(list@.take(i + 1).last() == list@[i as int]);
        }
        if !(hidden_files == HiddenFiles::Hide && starts_with_dot(list[i].key.as_str())) {
            let ghost before = r@;
            r.push((list[i].file.clone(), list[i].is_dir));
            assert(pairs_view(r@) =~= pairs_view(before).push((list@[i as int].file@, list@[i as int].is_dir)));
        }
        i += 1;
    }
    assert(list@.take(list@.len() as int) =~= list@);
    r
}

/// The walk of the finder through the directory tree, a level at a time:
/// the directories of the level being read, how many of them were handed
/// out, and the directories found on this level, read on the next one.
pub struct FzfWalk {
    pub directories: Vec<String>,
    pub index: usize,
    pub new_directories: Vec<String>,
    pub hidden_files: HiddenFiles,
}

/// The directories among `entries`.
pub open spec fn dirs_of(entries: Seq<(Seq<char>, bool)>) -> Seq<Seq<char>>
    decreases entries.len(),
{
    if entries.len() == 0 {
        Seq::empty()
    } else if entries.last().1 {
        dirs_of(entries.drop_last()).push(entries.last().0)
    } else {
        dirs_of(entries.drop_last())
    }
}

impl FzfWalk {
    pub open spec fn wf(&self) -> bool {
        self.index <= self.directories.len()
    }

    /// A walk starting from the directories among the initial entries.
    pub fn new(initial: &[(String, bool)], hidden_files: HiddenFiles) -> (r: FzfWalk)
        ensures
            r.wf(),
            crate::archive_mounter::names_view(r.directories@) == dirs_of(pairs_view(initial@)),
            r.index == 0,
            r.new_directories@.len() == 0,
            r.hidden_files == hidden_files,
    {
        let mut dirs: Vec<String> = Vec::new();
        let mut i: usize = 0;
        while i < initial.len()
            invariant
                i <= initial@.len(),
                crate::archive_mounter::names_view(dirs@) == dirs_of(pairs_view(initial@).take(i as int)),
            decreases initial.len() - i,
        {
            proof {
                let pv = pairs_view(initial@);
                assert(pv.take(i + 1).drop_last() =~= pv.take(i as int));
                assert(pv.take(i + 1).last() == pv[i as int]);
            }
            if initial[i].1 {
                let ghost before = dirs@;
                dirs.push(initial[i].0.clone());
                assert(crate::archive_mounter::names_view(dirs@) =~= crate::archive_mounter::names_view(before).push(
                    initial@[i as int].0@,
                ));
            }
            i += 1;
        }
        assert(pairs_view(initial@).take(initial@.len() as int) =~= pairs_view(initial@));
        FzfWalk { directories: dirs, index: 0, new_directories: Vec::new(), hidden_files }
    }

    /// The next directory to read: the next one of this level, or the first
    /// of the next level; none when no level is left.
    pub fn next_dir(&mut self) -> (r: Option<String>)
        requires
            old(self).wf(),
        ensures
            final(self).wf(),
            final(self).hidden_files == old(self).hidden_files,
            if old(self).index < old(self).directories.len() {
                &&& r matches Some(d) && d@ == old(self).directories@[old(self).index as int]@
                &&& final(self).index == old(self).index + 1
                &&& final(self).directories@ == old(self).directories@
                &&& final(self).new_directories@ == old(self).new_directories@
            } else if old(self).new_directories.len() > 0 {
                &&& r matches Some(d) && d@ == old(self).new_directories@[0]@
                &&& final(self).directories@ == old(self).new_directories@
                &&& final(self).index == 1
                &&& final(self).new_directories@.len() == 0
            } else {
                &&& r is None
                &&& final(self).directories@ == old(self).directories@
                &&& final(self).index == old(self).index
                &&& final(self).new_directories@.len() == 0
            },
    {
        if self.index < self.directories.len() {
            let d = self.directories[self.index].clone();
            self.index = self.index + 1;
            return Some(d);
        }
        if self.new_directories.len() == 0 {
            return None;
        }
        let mut next: Vec<String> = Vec::new();
        std::mem::swap(&mut next, &mut self.new_directories);
        self.directories = next;
        let d = self.directories[0].clone();
        self.index = 1;
        Some(d)
    }

    /// An entry found at `path` in the directory being read (a directory
    /// when `is_dir`): what the finder lists for it, unless it is hidden;
    /// a directory is read on the next level.
    pub fn entry(&mut self, path: &str, is_dir: bool) -> (r: Option<(String, bool)>)
        requires
            old(self).wf(),
        ensures
            final(self).wf(),
            final(self).directories@ == old(self).directories@,
            final(self).index == old(self).index,
            final(self).hidden_files == old(self).hidden_files,
            ({
                let hidden = old(self).hidden_files == HiddenFiles::Hide && (path_file_name(path@) matches Some(
                    n,
                ) && dot_name(n));
                if hidden {
                    r is None && final(self).new_directories@ == old(self).new_directories@
                } else {
                    &&& r matches Some(p) && p.0@ == path@ && p.1 == is_dir
                    &&& if is_dir {
                        &&& final(self).new_directories@.drop_last() == old(self).new_directories@
                        &&& final(self).new_directories@.len() == old(self).new_directories@.len() + 1
                        &&& final(self).new_directories@.last()@ == path@
                    } else {
                        final(self).new_directories@ == old(self).new_directories@
                    }
                }
            }),
    {
        if self.hidden_files == HiddenFiles::Hide {
            match file_name(path) {
                Some(n) => {
                    if starts_with_dot(n.as_str()) {
                        return None;
                    }
                },
                None => {},
            }
        }
        if is_dir {
            self.new_directories.push(path.to_string());
        }
        Some((path.to_string(), is_dir))
    }
}

} // verus!
