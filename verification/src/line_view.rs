//! The text viewer and the directory viewer: the first line in view, how
//! the keys scroll it, going to a line, and searching the lines for a text,
//! a regular expression or a glob.

use vstd::prelude::*;
use crate::fnmatch::{
    regex_compiles, regex_escape, regex_escape_spec, regex_matches, translate, translate_spec, RegexMatcher,
};
use crate::panel::sat_sub;
use crate::strings::{chars_of, push_str};
use crate::text_view::{
    clamp_first_line, clamp_first_line_spec, goto_line, has_match, is_next_match, is_prev_match,
    line_down, page_down, page_up, search_next, search_prev,
};

verus! {

broadcast use vstd::string::group_string_axioms;

/// How the search string is read.
#[derive(Debug, Clone, Copy, PartialEq, Eq, Structural)]
pub enum SearchType {
    /// As plain text.
    Normal,
    /// As a regular expression.
    Regex,
    /// As a glob.
    Wildcard,
}

/// A search asked for in the search dialog.
#[derive(Debug)]
pub struct TextSearch {
    pub search_string: String,
    pub search_type: SearchType,
    pub case_sensitive: bool,
    pub backwards: bool,
    pub whole_words: bool,
}

/// The regular expression of a search: the text escaped, the expression as
/// it is, or the glob's translation without its end anchor (the directory
/// viewer also drops its first two characters); between word boundaries for
/// whole words.
pub open spec fn search_expression_spec(search: TextSearch, dir_listing: bool) -> Seq<char> {
    let s = search.search_string@;
    let t = translate_spec(s);
    let base = match search.search_type {
        SearchType::Normal => regex_escape_spec(s),
        SearchType::Regex => s,
        SearchType::Wildcard => if dir_listing {
            t.subrange(2, t.len() - 2)
        } else {
            t.take(t.len() - 2)
        },
    };
    if search.whole_words {
        seq!['\\', 'b'] + base + seq!['\\', 'b']
    } else {
        base
    }
}

/// The regular expression of a search.
pub fn search_expression(search: &TextSearch, dir_listing: bool) -> (r: String)
    ensures
        r@ == search_expression_spec(*search, dir_listing),
{
    let base = match search.search_type {
        SearchType::Normal => regex_escape(search.search_string.as_str()),
        SearchType::Regex => search.search_string.clone(),
        SearchType::Wildcard => {
            let t = translate(search.search_string.as_str());
            proof {
                reveal_strlit("(?s:");
                reveal_strlit(")\\z");
            }
            let v = chars_of(t.as_str());
            let mut r = String::new();
            let mut i: usize = if dir_listing { 2 } else { 0 };
            let start: usize = i;
            let end: usize = v.len() - 2;
            while i < end
                invariant
                    end + 2 == v@.len(),
                    v@ == t@,
                    v@.len() >= 7,
                    start == if dir_listing { 2usize } else { 0usize },
                    start <= i <= end,
                    r@ == v@.subrange(start as int, i as int),
                decreases end - i,
            {
                crate::strings::push_char(&mut r, v[i]);
                assert(v@.subrange(start as int, i + 1) =~= v@.subrange(start as int, i as int).push(v@[i as int]));
                i += 1;
            }
            assert(v@.take(end as int) =~= v@.subrange(0, end as int));
            r
        },
    };
    if search.whole_words {
        let mut r = String::new();
        crate::strings::push_char(&mut r, '\\');
        crate::strings::push_char(&mut r, 'b');
        push_str(&mut r, base.as_str());
        crate::strings::push_char(&mut r, '\\');
        crate::strings::push_char(&mut r, 'b');
        assert(r@ =~= seq!['\\', 'b'] + base@ + seq!['\\', 'b']);
        r
    } else {
        base
    }
}


/// The value of a string of decimal digits.
pub open spec fn digits_value(d: Seq<char>) -> int
    decreases d.len(),
{
    if d.len() == 0 {
        0
    } else {
        digits_value(d.drop_last()) * 10 + (d.last() as int - '0' as int)
    }
}

pub open spec fn all_digits(d: Seq<char>) -> bool {
    forall|i: int| 0 <= i < d.len() ==> '0' <= #[trigger] d[i] <= '9'
}

/// What `usize::from_str` accepts: decimal digits after an optional `+`,
/// of a value that fits.
pub open spec fn parse_usize_spec(s: Seq<char>) -> Option<usize> {
    let d = if s.len() > 0 && s[0] == '+' { s.drop_first() } else { s };
    if d.len() > 0 && all_digits(d) && digits_value(d) <= usize::MAX {
        Some(digits_value(d) as usize)
    } else {
        None
    }
}

proof fn lemma_digits_value_nonneg(d: Seq<char>)
    requires
        all_digits(d),
    ensures
        digits_value(d) >= 0,
    decreases d.len(),
{
    if d.len() > 0 {
        assert(all_digits(d.drop_last())) by {
            assert forall|i: int| 0 <= i < d.drop_last().len() implies '0' <= #[trigger] d.drop_last()[i] <= '9' by {
                assert(d.drop_last()[i] == d[i]);
            }
        }
        lemma_digits_value_nonneg(d.drop_last());
        assert('0' <= d[d.len() - 1] <= '9');
    }
}

/// Reads a decimal number as `usize::from_str` does.
pub fn parse_usize(text: &str) -> (r: Option<usize>)
    ensures
        r == parse_usize_spec(text@),
{
    let v = chars_of(text);
    let start: usize = if v.len() > 0 && v[0] == '+' { 1 } else { 0 };
    let ghost d = if v@.len() > 0 && v@[0] == '+' { v@.drop_first() } else { v@ };
    assert(d =~= v@.skip(start as int));
    if start >= v.len() {
        return None;
    }
    let mut value: usize = 0;
    let mut i: usize = start;
    while i < v.len()
        invariant
            start <= i <= v@.len(),
            v@ == text@,
            d =~= v@.skip(start as int),
            d == if text@.len() > 0 && text@[0] == '+' { text@.drop_first() } else { text@ },
            d.len() > 0,
            all_digits(v@.subrange(start as int, i as int)),
            value as int == digits_value(v@.subrange(start as int, i as int)),
        decreases v.len() - i,
    {
        let c = v[i];
        let ghost pre = v@.subrange(start as int, i as int);
        assert(v@.subrange(start as int, i + 1) =~= pre.push(c));
        assert(d.take(i - start + 1) =~= pre.push(c));
        if !('0' <= c && c <= '9') {
            assert(!all_digits(d)) by {
                assert(d[i - start] == c);
            }
            return None;
        }
        let digit = (c as u32 - '0' as u32) as usize;
        proof {
            assert(all_digits(pre.push(c))) by {
                assert forall|k: int| 0 <= k < pre.push(c).len() implies '0' <= #[trigger] pre.push(c)[k] <= '9' by {
                    if k < pre.len() {
                        assert(pre.push(c)[k] == pre[k]);
                    }
                }
            }
            assert(pre.push(c).drop_last() =~= pre);
        }
        match value.checked_mul(10) {
            Some(m) => match m.checked_add(digit) {
                Some(n) => {
                    value = n;
                },
                None => {
                    proof {
                        lemma_digits_value_nonneg(pre);
                        lemma_digits_grow(d, (i - start + 1) as int);
                        assert(digits_value(pre.push(c)) == digits_value(pre) * 10 + (c as int - '0' as int));
                    }
                    return None;
                },
            },
            None => {
                proof {
                    lemma_digits_value_nonneg(pre);
                    lemma_digits_grow(d, (i - start + 1) as int);
                    assert(digits_value(pre.push(c)) == digits_value(pre) * 10 + (c as int - '0' as int));
                    assert(digits_value(pre) * 10 > usize::MAX);
                }
                return None;
            },
        }
        i += 1;
    }
    assert(v@.subrange(start as int, i as int) =~= d);
    Some(value)
}

/// The value of all digits is at least that of a prefix.
proof fn lemma_digits_grow(d: Seq<char>, k: int)
    requires
        0 <= k <= d.len(),
        all_digits(d.take(k)),
    ensures
        all_digits(d) ==> digits_value(d) >= digits_value(d.take(k)),
    decreases d.len() - k,
{
    if all_digits(d) && k < d.len() {
        assert(all_digits(d.take(k + 1))) by {
            assert forall|i: int| 0 <= i < d.take(k + 1).len() implies '0' <= #[trigger] d.take(k + 1)[i] <= '9' by {
                assert(d.take(k + 1)[i] == d[i]);
            }
        }
        lemma_digits_grow(d, k + 1);
        assert(d.take(k + 1).drop_last() =~= d.take(k));
        lemma_digits_value_nonneg(d.take(k));
        assert('0' <= d[k] <= '9');
        assert(d.take(k + 1).last() == d[k]);
        assert(digits_value(d.take(k + 1)) >= digits_value(d.take(k))) by (nonlinear_arith)
            requires
                digits_value(d.take(k + 1)) == digits_value(d.take(k)) * 10 + (d[k] as int - '0' as int),
                digits_value(d.take(k)) >= 0,
                d[k] as int - '0' as int >= 0,
        ;
    } else if k == d.len() {
        assert(d.take(k) =~= d);
    }
}


/// A key in a viewer.
#[derive(Debug, Clone, Copy, PartialEq, Eq, Structural)]
pub enum ViewerKey {
    Char(char),
    Ctrl(char),
    F(u8),
    Up,
    Down,
    Home,
    End,
    CtrlHome,
    CtrlEnd,
    PageUp,
    PageDown,
    Esc,
    Other,
}

/// What the caller is asked to do after a key.
#[derive(Debug, Clone, Copy, PartialEq, Eq, Structural)]
pub enum ViewerAction {
    /// The key is not the viewer's.
    Unhandled,
    Nothing,
    /// Open the dialog that asks for a line number.
    GotoDialog,
    /// Open the search dialog: for a regular expression or a text, and
    /// searching backwards or not.
    SearchDialog(bool, bool),
}

/// How a search ended.
#[derive(Debug, Clone, Copy, PartialEq, Eq, Structural)]
pub enum SearchOutcome {
    /// The search string was empty: the search is over.
    Cleared,
    /// The expression is not valid ("Invalid search string").
    Invalid,
    /// No line matches ("Search string not found").
    NotFound,
    /// The view went to a matching line.
    Found,
}

/// The view of a text (its lines) or of a directory listing (its entries).
pub struct LineView {
    /// The directory viewer's variant of the keys and of the glob search.
    pub dir_listing: bool,
    pub first_line: usize,
    pub height: usize,
    pub num_lines: usize,
    /// The line the next search starts from.
    pub search_pos: usize,
    /// `n` searches backwards.
    pub backwards: bool,
    /// While a search is active: which lines hold a match.
    pub matches: Option<Vec<bool>>,
}

/// The line the search goes to from `pos`.
pub open spec fn search_target(m: Seq<bool>, pos: int, forward: bool, r: int) -> bool {
    if forward { is_next_match(m, pos, r) } else { is_prev_match(m, pos, r) }
}


/// The text without its trailing newlines (as `trim_end_matches('\n')`).
pub open spec fn trim_newlines(s: Seq<char>) -> Seq<char>
    decreases s.len(),
{
    if s.len() > 0 && s.last() == '\n' {
        trim_newlines(s.drop_last())
    } else {
        s
    }
}

fn trimmed(s: &str) -> (r: String)
    ensures
        r@ == trim_newlines(s@),
{
    let v = chars_of(s);
    let mut end: usize = v.len();
    assert(v@.take(end as int) =~= v@);
    while end > 0 && v[end - 1] == '\n'
        invariant
            end <= v@.len(),
            v@ == s@,
            trim_newlines(v@.take(end as int)) == trim_newlines(s@),
        decreases end,
    {
        assert(v@.take(end as int).drop_last() =~= v@.take(end - 1));
        end -= 1;
    }
    assert(trim_newlines(v@.take(end as int)) == v@.take(end as int)) by {
        if end > 0 {
            assert(v@.take(end as int).last() == v@[end - 1]);
        }
    }
    let mut r = String::new();
    let mut i: usize = 0;
    while i < end
        invariant
            i <= end <= v@.len(),
            r@ == v@.take(i as int),
        decreases end - i,
    {
        crate::strings::push_char(&mut r, v[i]);
        assert(v@.take(i + 1) =~= v@.take(i as int).push(v@[i as int]));
        i += 1;
    }
    r
}

/// Which of the texts the search matches: the lines without their trailing
/// newlines, or the directory entries' labels as they are.
pub open spec fn match_lines(texts: Seq<String>, pattern: Seq<char>, ci: bool, dir_listing: bool) -> Seq<bool> {
    Seq::new(
        texts.len(),
        |i: int| regex_matches(pattern, ci, if dir_listing { texts[i]@ } else { trim_newlines(texts[i]@) }),
    )
}

impl LineView {
    /// The view has lines, stays on a line, and an active search has a
    /// match for each line and at least one matching line.
    pub open spec fn wf(&self) -> bool {
        &&& self.height >= 1
        &&& (self.first_line < self.num_lines || self.first_line == 0)
        &&& (self.matches matches Some(m) ==> m@.len() == self.num_lines && has_match(m@))
    }

    /// The first line clamped so that the view stays within the lines.
    pub open spec fn clamped(&self, first: int) -> int {
        clamp_first_line_spec(first, self.height as int, self.num_lines as int)
    }

    /// A view of `num_lines` lines, `height` of them shown, at the top.
    pub fn new(dir_listing: bool, height: usize, num_lines: usize) -> (r: LineView)
        requires
            height >= 1,
        ensures
            r.wf(),
            r.dir_listing == dir_listing,
            r.first_line == 0,
            r.search_pos == 0,
            r.height == height,
            r.num_lines == num_lines,
            !r.backwards,
            r.matches is None,
    {
        LineView { dir_listing, first_line: 0, height, num_lines, search_pos: 0, backwards: false, matches: None }
    }

    /// The first line after a key that scrolls.
    pub open spec fn scrolled(&self, key: ViewerKey) -> Option<int> {
        let f = self.first_line as int;
        let h = self.height as int;
        let n = self.num_lines as int;
        if self.dir_listing {
            match key {
                ViewerKey::Up | ViewerKey::Char('k') => Some(self.clamped(sat_sub(f, 1))),
                ViewerKey::Down | ViewerKey::Char('j') => Some(self.clamped(f + 1)),
                ViewerKey::Home | ViewerKey::CtrlHome | ViewerKey::Char('g') => Some(self.clamped(0)),
                ViewerKey::End | ViewerKey::CtrlEnd | ViewerKey::Char('G') => Some(self.clamped(n)),
                ViewerKey::PageUp | ViewerKey::Ctrl('b') => Some(self.clamped(sat_sub(f, h - 1))),
                ViewerKey::PageDown | ViewerKey::Ctrl('f') => Some(self.clamped(f + (h - 1))),
                _ => None,
            }
        } else {
            match key {
                ViewerKey::Up | ViewerKey::Char('k') => Some(sat_sub(f, 1)),
                ViewerKey::Down | ViewerKey::Char('j') => Some(if f + 1 + h <= n { f + 1 } else { f }),
                ViewerKey::Home | ViewerKey::Char('g') => Some(0),
                ViewerKey::End | ViewerKey::Char('G') => Some(sat_sub(n, h)),
                ViewerKey::PageUp | ViewerKey::Ctrl('b') => Some(sat_sub(f, h - 1)),
                ViewerKey::PageDown | ViewerKey::Ctrl('f') => Some(
                    if f + (h - 1) + h <= n {
                        f + (h - 1)
                    } else {
                        sat_sub(n, h)
                    },
                ),
                _ => None,
            }
        }
    }

    /// The dialog a key opens.
    pub open spec fn dialog(&self, key: ViewerKey) -> Option<ViewerAction> {
        match key {
            ViewerKey::Char(':') | ViewerKey::F(5) => Some(ViewerAction::GotoDialog),
            ViewerKey::Char('5') => if self.dir_listing { Some(ViewerAction::GotoDialog) } else { None },
            ViewerKey::Char('/') => Some(ViewerAction::SearchDialog(true, false)),
            ViewerKey::Char('?') => Some(ViewerAction::SearchDialog(true, true)),
            ViewerKey::Char('f') | ViewerKey::F(7) => Some(ViewerAction::SearchDialog(false, false)),
            ViewerKey::Char('F') => Some(ViewerAction::SearchDialog(false, true)),
            ViewerKey::Char('7') => if self.dir_listing {
                Some(ViewerAction::SearchDialog(false, false))
            } else {
                None
            },
            _ => None,
        }
    }

    fn clamp(&self, first: usize) -> (r: usize)
        ensures
            r == self.clamped(first as int),
    {
        clamp_first_line(first, self.height, self.num_lines)
    }

    /// Goes to the next (or previous) matching line and puts it at the top
    /// as far as the view allows.
    fn search_step(&mut self, forward: bool)
        requires
            old(self).wf(),
            old(self).matches is Some,
        ensures
            final(self).wf(),
            search_target(old(self).matches.unwrap()@, old(self).search_pos as int, forward, final(self).search_pos as int),
            final(self).first_line == old(self).clamped(final(self).search_pos as int),
            final(self).matches == old(self).matches,
            final(self).backwards == old(self).backwards,
            final(self).height == old(self).height,
            final(self).num_lines == old(self).num_lines,
            final(self).dir_listing == old(self).dir_listing,
    {
        let pos = match &self.matches {
            Some(m) => if forward { search_next(m.as_slice(), self.search_pos) } else { search_prev(m.as_slice(), self.search_pos) },
            None => 0,
        };
        self.search_pos = pos;
        self.first_line = self.clamp(pos);
    }

    /// Handles a key: scrolls, opens a dialog, goes to the next or previous
    /// match (`n`, `N`, by the search's direction) or ends the search (Esc).
    pub fn handle_key(&mut self, key: ViewerKey) -> (a: ViewerAction)
        requires
            old(self).wf(),
        ensures
            final(self).wf(),
            final(self).height == old(self).height,
            final(self).num_lines == old(self).num_lines,
            final(self).backwards == old(self).backwards,
            final(self).dir_listing == old(self).dir_listing,
            match old(self).scrolled(key) {
                Some(f) => a is Nothing && final(self).first_line == f && final(self).search_pos == f
                    && final(self).matches == old(self).matches,
                None => match old(self).dialog(key) {
                    Some(d) => a == d && final(self).first_line == old(self).first_line
                        && final(self).search_pos == old(self).search_pos
                        && final(self).matches == old(self).matches,
                    None => match key {
                        ViewerKey::Char('n') | ViewerKey::Char('N') => {
                            &&& a is Nothing
                            &&& final(self).matches == old(self).matches
                            &&& match old(self).matches {
                                Some(m) => {
                                    let forward = (key == ViewerKey::Char('n')) != old(self).backwards;
                                    &&& search_target(m@, old(self).search_pos as int, forward, final(self).search_pos as int)
                                    &&& final(self).first_line == old(self).clamped(final(self).search_pos as int)
                                },
                                None => final(self).first_line == old(self).first_line
                                    && final(self).search_pos == old(self).search_pos,
                            }
                        },
                        ViewerKey::Esc => a is Nothing && final(self).matches is None
                            && final(self).first_line == old(self).first_line
                            && final(self).search_pos == old(self).search_pos,
                        _ => a is Unhandled && final(self).first_line == old(self).first_line
                            && final(self).search_pos == old(self).search_pos
                            && final(self).matches == old(self).matches,
                    },
                },
            },
    {
        let f = self.first_line;
        let h = self.height;
        let n = self.num_lines;
        let scrolled: Option<usize> = if self.dir_listing {
            match key {
                ViewerKey::Up | ViewerKey::Char('k') => Some(self.clamp(f.saturating_sub(1))),
                ViewerKey::Down | ViewerKey::Char('j') => Some(self.clamp(f + 1)),
                ViewerKey::Home | ViewerKey::CtrlHome | ViewerKey::Char('g') => Some(self.clamp(0)),
                ViewerKey::End | ViewerKey::CtrlEnd | ViewerKey::Char('G') => Some(self.clamp(n)),
                ViewerKey::PageUp | ViewerKey::Ctrl('b') => Some(self.clamp(f.saturating_sub(h - 1))),
                ViewerKey::PageDown | ViewerKey::Ctrl('f') => {
                    let target = f.saturating_add(h - 1);
                    proof {
                        if f + (h - 1) > usize::MAX {
                            assert(self.clamped(f + (h - 1)) == self.clamped(target as int));
                        }
                    }
                    Some(self.clamp(target))
                },
                _ => None,
            }
        } else {
            match key {
                ViewerKey::Up | ViewerKey::Char('k') => Some(f.saturating_sub(1)),
                ViewerKey::Down | ViewerKey::Char('j') => Some(line_down(f, h, n)),
                ViewerKey::Home | ViewerKey::Char('g') => Some(0),
                ViewerKey::End | ViewerKey::Char('G') => Some(n.saturating_sub(h)),
                ViewerKey::PageUp | ViewerKey::Ctrl('b') => Some(page_up(f, h)),
                ViewerKey::PageDown | ViewerKey::Ctrl('f') => Some(page_down(f, h, n)),
                _ => None,
            }
        };
        match scrolled {
            Some(first) => {
                self.first_line = first;
                self.search_pos = first;
                return ViewerAction::Nothing;
            },
            None => {},
        }
        match key {
            ViewerKey::Char(':') | ViewerKey::F(5) => ViewerAction::GotoDialog,
            ViewerKey::Char('5') if self.dir_listing => ViewerAction::GotoDialog,
            ViewerKey::Char('/') => ViewerAction::SearchDialog(true, false),
            ViewerKey::Char('?') => ViewerAction::SearchDialog(true, true),
            ViewerKey::Char('f') | ViewerKey::F(7) => ViewerAction::SearchDialog(false, false),
            ViewerKey::Char('F') => ViewerAction::SearchDialog(false, true),
            ViewerKey::Char('7') if self.dir_listing => ViewerAction::SearchDialog(false, false),
            ViewerKey::Char('n') | ViewerKey::Char('N') => {
                if self.matches.is_some() {
                    let forward = (key == ViewerKey::Char('n')) != self.backwards;
                    self.search_step(forward);
                }
                ViewerAction::Nothing
            },
            ViewerKey::Esc => {
                self.matches = None;
                ViewerAction::Nothing
            },
            _ => ViewerAction::Unhandled,
        }
    }

    /// Goes to the 1-based line typed in the goto dialog; none (the view
    /// unchanged) when it is not a number.
    pub fn goto(&mut self, text: &str) -> (r: Option<usize>)
        requires
            old(self).wf(),
        ensures
            final(self).wf(),
            r == parse_usize_spec(text@),
            match r {
                Some(l) => final(self).first_line == old(self).clamped(sat_sub(l as int, 1))
                    && final(self).search_pos == final(self).first_line,
                None => final(self).first_line == old(self).first_line
                    && final(self).search_pos == old(self).search_pos,
            },
            final(self).matches == old(self).matches,
            final(self).height == old(self).height,
            final(self).num_lines == old(self).num_lines,
    {
        let r = parse_usize(text);
        match r {
            Some(l) => {
                self.first_line = goto_line(l, self.height, self.num_lines);
                self.search_pos = self.first_line;
            },
            None => {},
        }
        r
    }

    /// Starts the search asked for in the search dialog over `texts` (the
    /// lines, or the entries' labels): the view goes to the first match
    /// from the first line in view, in the search's direction.
    pub fn apply_search(&mut self, search: &TextSearch, texts: &[String]) -> (r: SearchOutcome)
        requires
            old(self).wf(),
            texts@.len() == old(self).num_lines,
        ensures
            final(self).wf(),
            final(self).height == old(self).height,
            final(self).num_lines == old(self).num_lines,
            ({
                let pattern = search_expression_spec(*search, old(self).dir_listing);
                let ci = !search.case_sensitive;
                let m = match_lines(texts@, pattern, ci, old(self).dir_listing);
                if search.search_string@.len() == 0 {
                    r == SearchOutcome::Cleared && final(self).matches is None
                        && final(self).first_line == old(self).first_line
                } else if !regex_compiles(pattern, ci) {
                    r == SearchOutcome::Invalid && final(self).matches is None
                        && final(self).first_line == old(self).first_line
                        && final(self).backwards == search.backwards
                } else if !has_match(m) {
                    r == SearchOutcome::NotFound && final(self).matches is None
                        && final(self).first_line == old(self).first_line
                        && final(self).backwards == search.backwards
                } else {
                    &&& r == SearchOutcome::Found
                    &&& final(self).matches matches Some(v) && v@ == m
                    &&& final(self).backwards == search.backwards
                    &&& if m[old(self).first_line as int] {
                        final(self).search_pos == old(self).first_line
                            && final(self).first_line == old(self).first_line
                    } else {
                        search_target(m, old(self).first_line as int, !search.backwards, final(self).search_pos as int)
                            && final(self).first_line == old(self).clamped(final(self).search_pos as int)
                    }
                }
            }),
    {
        if search.search_string.as_str().unicode_len() == 0 {
            self.matches = None;
            return SearchOutcome::Cleared;
        }
        self.backwards = search.backwards;
        let expression = search_expression(search, self.dir_listing);
        let ci = !search.case_sensitive;
        let re = match RegexMatcher::new(expression.as_str(), ci) {
            Some(re) => re,
            None => {
                self.matches = None;
                return SearchOutcome::Invalid;
            },
        };
        let mut m: Vec<bool> = Vec::new();
        let mut any = false;
        let mut i: usize = 0;
        while i < texts.len()
            invariant
                i <= texts@.len(),
                re.pattern() == expression@,
                re.ignores_case() == ci,
                m@ =~= match_lines(texts@, expression@, ci, self.dir_listing).take(i as int),
                any == exists|k: int| 0 <= k < i && m@[k],
            decreases texts.len() - i,
        {
            let hit = if self.dir_listing {
                re.is_match(texts[i].as_str())
            } else {
                let t = trimmed(texts[i].as_str());
                re.is_match(t.as_str())
            };
            let ghost before = m@;
            m.push(hit);
            proof {
                assert(hit == match_lines(texts@, expression@, ci, self.dir_listing)[i as int]);
                assert forall|k: int| 0 <= k < i implies m@[k] == before[k] by {}
                if hit {
                    assert(m@[i as int]);
                }
            }
            any = any || hit;
            i += 1;
        }
        let ghost full = match_lines(texts@, expression@, ci, self.dir_listing);
        assert(full.take(i as int) =~= full);
        if !any {
            assert(!has_match(full)) by {
                if has_match(full) {
                    let k = choose|k: int| 0 <= k < full.len() && full[k];
                    assert(m@[k]);
                }
            }
            self.matches = None;
            return SearchOutcome::NotFound;
        }
        let first = self.first_line;
        let at_first = m[first];
        self.matches = Some(m);
        self.search_pos = first;
        if !at_first {
            self.search_step(!self.backwards);
        }
        SearchOutcome::Found
    }
}


/// From a matching line, going to the next match and back to the previous
/// one returns to it (round the end as well).
pub proof fn law_next_then_prev(m: Seq<bool>, p: int, r: int)
    requires
        0 <= p < m.len(),
        m[p],
        is_next_match(m, p, r),
    ensures
        is_prev_match(m, r, p),
{
    if exists|k: int| p < k < m.len() && m[k] {
        assert(p < r);
        assert(exists|k: int| 0 <= k < r && k < m.len() && m[k]) by {
            assert(0 <= p < r && m[p]);
        }
    } else {
        assert(forall|k: int| 0 <= k < r ==> !m[k]);
        assert(r <= p) by {
            if r > p {
                assert(m[r]);
            }
        }
        if exists|k: int| 0 <= k < r && k < m.len() && m[k] {
            let k = choose|k: int| 0 <= k < r && k < m.len() && m[k];
            assert(!m[k]);
        }
    }
}

/// A search step lands on a matching line.
pub proof fn law_search_lands_on_match(m: Seq<bool>, pos: int, forward: bool, r: int)
    requires
        search_target(m, pos, forward, r),
    ensures
        0 <= r < m.len() && m[r],
{
}

} // verus!
