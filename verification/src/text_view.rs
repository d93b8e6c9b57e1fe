//! The arithmetic of the text viewer: tab expansion, scrolling, and moving
//! from one line with a search match to the next.

use vstd::prelude::*;
use crate::strings::push_char;

verus! {

broadcast use vstd::string::group_string_axioms;

/// `n` spaces.
pub open spec fn spaces(n: nat) -> Seq<char> {
    Seq::new(n, |i: int| ' ')
}

/// The line with each tab replaced by the spaces that reach the next tab
/// stop (a multiple of `tabsize` columns).
pub open spec fn expand_tabs(line: Seq<char>, tabsize: nat) -> Seq<char>
    recommends
        tabsize > 0,
    decreases line.len(),
{
    if line.len() == 0 {
        Seq::empty()
    } else {
        let e = expand_tabs(line.drop_last(), tabsize);
        if line.last() == '\t' {
            e + spaces((tabsize - e.len() % tabsize) as nat)
        } else {
            e.push(line.last())
        }
    }
}

proof fn lemma_expand_tabs_len(line: Seq<char>, tabsize: nat)
    requires
        tabsize > 0,
    ensures
        expand_tabs(line, tabsize).len() <= line.len() * tabsize,
    decreases line.len(),
{
    if line.len() > 0 {
        lemma_expand_tabs_len(line.drop_last(), tabsize);
        let e = expand_tabs(line.drop_last(), tabsize);
        assert(0 <= e.len() % tabsize < tabsize) by (nonlinear_arith)
            requires
                tabsize > 0,
        ;
        assert((line.len() - 1) * tabsize + tabsize == line.len() * tabsize) by (nonlinear_arith);
        assert(tabsize >= 1);
    }
}

/// Expands the tabs of a line to spaces, with tab stops every `tabsize`
/// columns.
pub fn expand_tabs_for_line(line: &str, tabsize: usize) -> (r: String)
    requires
        tabsize > 0,
        line@.len() * tabsize <= usize::MAX,
    ensures
        r@ == expand_tabs(line@, tabsize as nat),
{
    let chars = crate::strings::chars_of(line);
    let mut expanded = String::new();
    let mut column: usize = 0;
    let mut i: usize = 0;
    assert(chars@.take(0) =~= Seq::<char>::empty());
    while i < chars.len()
        invariant
            i <= chars@.len(),
            chars@ == line@,
            tabsize > 0,
            line@.len() * tabsize <= usize::MAX,
            expanded@ == expand_tabs(chars@.take(i as int), tabsize as nat),
            column == expanded@.len(),
        decreases chars.len() - i,
    {
        proof {
            assert(chars@.take(i + 1).drop_last() =~= chars@.take(i as int));
            assert(chars@.take(i + 1).last() == chars@[i as int]);
            lemma_expand_tabs_len(chars@.take(i + 1), tabsize as nat);
            assert((i + 1) * tabsize <= line@.len() * tabsize) by (nonlinear_arith)
                requires
                    i + 1 <= line@.len(),
            ;
        }
        let c = chars[i];
        let ghost before = expanded@;
        if c == '\t' {
            let spaces_to_insert = tabsize - (column % tabsize);
            let mut k: usize = 0;
            while k < spaces_to_insert
                invariant
                    k <= spaces_to_insert,
                    expanded@ == before + spaces(k as nat),
                decreases spaces_to_insert - k,
            {
                push_char(&mut expanded, ' ');
                assert(before + spaces((k + 1) as nat) =~= (before + spaces(k as nat)).push(' '));
                k += 1;
            }
            column += spaces_to_insert;
        } else {
            push_char(&mut expanded, c);
            column += 1;
        }
        i += 1;
    }
    assert(chars@.take(i as int) =~= chars@);
    expanded
}

/// The first line shown, pulled back so that the view does not extend past
/// the last line when it would.
pub open spec fn clamp_first_line_spec(first_line: int, height: int, num_lines: int) -> int {
    if first_line + height > num_lines {
        if num_lines >= height { num_lines - height } else { 0 }
    } else {
        first_line
    }
}

/// Clamps the first line shown so that the view of `height` lines does not
/// extend past the last of `num_lines` lines.
pub fn clamp_first_line(first_line: usize, height: usize, num_lines: usize) -> (r: usize)
    ensures
        r == clamp_first_line_spec(first_line as int, height as int, num_lines as int),
{
    if first_line > num_lines || height > num_lines - first_line {
        num_lines.saturating_sub(height)
    } else {
        first_line
    }
}

/// The first line after scrolling one line down: unchanged when the last
/// line is already shown.
pub fn line_down(first_line: usize, height: usize, num_lines: usize) -> (r: usize)
    ensures
        r == if first_line + 1 + height <= num_lines { first_line + 1 } else { first_line as int },
{
    if first_line < num_lines && height <= num_lines - first_line - 1 {
        first_line + 1
    } else {
        first_line
    }
}

/// The first line after scrolling a page (the height less one line) up.
pub fn page_up(first_line: usize, height: usize) -> (r: usize)
    requires
        height >= 1,
    ensures
        r == if first_line >= height - 1 { first_line - (height - 1) } else { 0 },
{
    first_line.saturating_sub(height - 1)
}

/// The first line after scrolling a page (the height less one line) down,
/// stopping where the last line is at the bottom.
pub fn page_down(first_line: usize, height: usize, num_lines: usize) -> (r: usize)
    requires
        height >= 1,
    ensures
        r == if first_line + (height - 1) + height <= num_lines {
            first_line + (height - 1)
        } else if num_lines >= height {
            num_lines - height
        } else {
            0
        },
{
    if first_line <= num_lines && height - 1 <= num_lines - first_line && height <= num_lines
        - first_line - (height - 1) {
        first_line + (height - 1)
    } else {
        num_lines.saturating_sub(height)
    }
}

/// The first line that puts the 1-based `line_number` at the top, or the
/// last page when that would go past the end.
pub fn goto_line(line_number: usize, height: usize, num_lines: usize) -> (r: usize)
    ensures
        r == ({
            let l = if line_number >= 1 { line_number - 1 } else { 0 };
            if l + height <= num_lines {
                l
            } else if num_lines >= height {
                num_lines - height
            } else {
                0
            }
        }),
{
    let l = line_number.saturating_sub(1);
    if l <= num_lines && height <= num_lines - l {
        l
    } else {
        num_lines.saturating_sub(height)
    }
}

/// Some line holds a match.
pub open spec fn has_match(m: Seq<bool>) -> bool {
    exists|k: int| 0 <= k < m.len() && m[k]
}

/// The line of the next match after `pos`, going round to the first match.
pub open spec fn is_next_match(m: Seq<bool>, pos: int, r: int) -> bool {
    &&& 0 <= r < m.len() && m[r]
    &&& if exists|k: int| pos < k < m.len() && m[k] {
        pos < r && forall|k: int| pos < k < r ==> !m[k]
    } else {
        forall|k: int| 0 <= k < r ==> !m[k]
    }
}

/// The line of the previous match before `pos`, going round to the last match.
pub open spec fn is_prev_match(m: Seq<bool>, pos: int, r: int) -> bool {
    &&& 0 <= r < m.len() && m[r]
    &&& if exists|k: int| 0 <= k < pos && k < m.len() && m[k] {
        r < pos && forall|k: int| r < k < pos && k < m.len() ==> !m[k]
    } else {
        forall|k: int| r < k < m.len() ==> !m[k]
    }
}

/// The next line with a match after `search_pos`, or the first one.
pub fn search_next(lines_with_matches: &[bool], search_pos: usize) -> (r: usize)
    requires
        has_match(lines_with_matches@),
    ensures
        is_next_match(lines_with_matches@, search_pos as int, r as int),
{
    let m = lines_with_matches;
    let n = m.len();
    let mut k: usize = if search_pos < n { search_pos + 1 } else { n };
    while k < n
        invariant
            n == m@.len(),
            m@ == lines_with_matches@,
            k <= n,
            search_pos < k || k == n,
            forall|j: int| search_pos < j < k ==> !m@[j],
        decreases n - k,
    {
        if m[k] {
            assert(m@[k as int]);
            assert(exists|j: int| search_pos < j < m@.len() && m@[j]);
            return k;
        }
        k += 1;
    }
    let mut k: usize = 0;
    while k < n
        invariant
            n == m@.len(),
            m@ == lines_with_matches@,
            k <= n,
            has_match(m@),
            forall|j: int| search_pos < j < n ==> !m@[j],
            forall|j: int| 0 <= j < k ==> !m@[j],
        decreases n - k,
    {
        if m[k] {
            assert(m@[k as int]);
            assert(!exists|j: int| search_pos < j < m@.len() && m@[j]);
            return k;
        }
        k += 1;
    }
    proof {
        let w = choose|j: int| 0 <= j < m@.len() && m@[j];
        assert(!m@[w]);
    }
    0
}

/// The previous line with a match before `search_pos`, or the last one.
pub fn search_prev(lines_with_matches: &[bool], search_pos: usize) -> (r: usize)
    requires
        has_match(lines_with_matches@),
    ensures
        is_prev_match(lines_with_matches@, search_pos as int, r as int),
{
    let m = lines_with_matches;
    let n = m.len();
    let mut k: usize = if search_pos < n { search_pos } else { n };
    while k > 0
        invariant
            n == m@.len(),
            m@ == lines_with_matches@,
            k <= n,
            k <= search_pos,
            forall|j: int| k <= j < search_pos && j < n ==> !m@[j],
        decreases k,
    {
        if m[k - 1] {
            assert(m@[k - 1]);
            assert(exists|j: int| 0 <= j < search_pos && j < m@.len() && m@[j]);
            return k - 1;
        }
        k -= 1;
    }
    let mut k: usize = n;
    while k > 0
        invariant
            n == m@.len(),
            m@ == lines_with_matches@,
            k <= n,
            has_match(m@),
            forall|j: int| 0 <= j < search_pos && j < n ==> !m@[j],
            forall|j: int| k <= j < n ==> !m@[j],
        decreases k,
    {
        if m[k - 1] {
            assert(m@[k - 1]);
            assert(!exists|j: int| 0 <= j < search_pos && j < m@.len() && m@[j]);
            return k - 1;
        }
        k -= 1;
    }
    proof {
        let w = choose|j: int| 0 <= j < m@.len() && m@[j];
        assert(!m@[w]);
    }
    0
}

/// The cursor of a list of `len` entries moved to `pos`, kept on an entry
/// (on the first when the list is empty).
pub fn clamp_list_cursor(pos: usize, len: usize) -> (r: usize)
    ensures
        r == if len == 0 { 0 } else if pos < len { pos as int } else { len - 1 },
{
    let last = len.saturating_sub(1);
    if pos < last { pos } else { last }
}

/// After clamping, the view does not extend past the last line, unless it
/// starts at the first line; and a view that fits is left alone.
pub proof fn law_clamp_first_line(first_line: int, height: int, num_lines: int)
    requires
        0 <= first_line,
        0 <= height,
        0 <= num_lines,
    ensures
        clamp_first_line_spec(first_line, height, num_lines) + height <= num_lines
            || clamp_first_line_spec(first_line, height, num_lines) == 0,
        first_line + height <= num_lines ==> clamp_first_line_spec(first_line, height, num_lines)
            == first_line,
{
}

/// An expanded line holds no tab.
pub proof fn law_expand_tabs_no_tab(line: Seq<char>, tabsize: nat)
    requires
        tabsize > 0,
    ensures
        !expand_tabs(line, tabsize).contains('\t'),
    decreases line.len(),
{
    if line.len() > 0 {
        law_expand_tabs_no_tab(line.drop_last(), tabsize);
        let e = expand_tabs(line.drop_last(), tabsize);
        let r = expand_tabs(line, tabsize);
        assert forall|k: int| 0 <= k < r.len() implies r[k] != '\t' by {
            if k < e.len() {
                assert(r[k] == e[k]);
                assert(!e.contains('\t'));
                if e[k] == '\t' {
                    assert(e.contains('\t'));
                }
            }
        }
    }
}


/// The viewer a file is shown in.
#[derive(Debug, Clone, Copy, PartialEq, Eq, Structural)]
pub enum ViewerKind {
    /// A directory: its listing.
    Directory,
    /// Text: the lines.
    Text,
    /// Anything else: the bytes.
    Dump,
}

/// The largest file shown as text (4 MiB).
pub const MAX_TEXT_SIZE: u64 = 4194304;

/// How much of a file is looked at to tell text from binary (128 KiB).
pub const TEXT_PROBE_SIZE: usize = 131072;

/// The viewer for a file of `file_length` bytes whose first bytes are
/// `head`: text when it is not larger than 4 MiB and `head` holds no zero
/// byte.
pub fn viewer_kind(is_dir: bool, file_length: u64, head: &[u8]) -> (r: ViewerKind)
    ensures
        r == if is_dir {
            ViewerKind::Directory
        } else if file_length <= MAX_TEXT_SIZE && !head@.contains(0u8) {
            ViewerKind::Text
        } else {
            ViewerKind::Dump
        },
{
    if is_dir {
        return ViewerKind::Directory;
    }
    if file_length > MAX_TEXT_SIZE {
        return ViewerKind::Dump;
    }
    let mut i: usize = 0;
    while i < head.len()
        invariant
            i <= head@.len(),
            !is_dir,
            file_length <= MAX_TEXT_SIZE,
            forall|k: int| 0 <= k < i ==> head@[k] != 0u8,
        decreases head.len() - i,
    {
        if head[i] == 0 {
            assert(0 <= i < head@.len() && head@[i as int] == 0u8);
            assert(head@.contains(0u8));
            return ViewerKind::Dump;
        }
        i += 1;
    }
    ViewerKind::Text
}

} // verus!
