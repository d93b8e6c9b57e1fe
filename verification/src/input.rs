//! A one-line text input: editing at a cursor, and the horizontal scrolling
//! that keeps the cursor visible in a field of a given width.

use vstd::prelude::*;
use crate::strings::{chars_of, push_char, string_from_chars};
use unicode_width::UnicodeWidthChar;

verus! {

broadcast use vstd::string::group_string_axioms;

/// `UnicodeWidthChar::width`: the number of columns a character takes, none
/// for control characters.
pub uninterp spec fn char_width(c: char) -> Option<usize>;

/// Trusted: calls `UnicodeWidthChar::width` (unicode-width); the result is
/// the named `char_width`.
#[verifier::external_body]
pub(crate) fn width_of(c: char) -> (r: Option<usize>)
    ensures
        r == char_width(c),
{
    c.width()
}

/// The columns a character takes, counting none for control characters.
pub open spec fn cols(c: char) -> nat {
    match char_width(c) {
        Some(w) => w as nat,
        None => 0,
    }
}

pub(crate) fn cols_of(c: char) -> (r: usize)
    ensures
        r == cols(c),
{
    match width_of(c) {
        Some(w) => w,
        None => 0,
    }
}

/// `str::is_whitespace` for one character: the characters with the Unicode
/// `White_Space` property.
pub open spec fn is_white_space(c: char) -> bool {
    ('\u{9}' <= c && c <= '\u{d}') || c == ' ' || c == '\u{85}' || c == '\u{a0}' || c == '\u{1680}'
        || ('\u{2000}' <= c && c <= '\u{200a}') || c == '\u{2028}' || c == '\u{2029}' || c
        == '\u{202f}' || c == '\u{205f}' || c == '\u{3000}'
}

pub(crate) fn white_space_char(c: char) -> (r: bool)
    ensures
        r == is_white_space(c),
{
    ('\u{9}' <= c && c <= '\u{d}') || c == ' ' || c == '\u{85}' || c == '\u{a0}' || c == '\u{1680}'
        || ('\u{2000}' <= c && c <= '\u{200a}') || c == '\u{2028}' || c == '\u{2029}' || c
        == '\u{202f}' || c == '\u{205f}' || c == '\u{3000}'
}

/// The text with leading and trailing white space removed, as `str::trim`.
pub open spec fn is_trim_of(s: Seq<char>, r: Seq<char>) -> bool {
    exists|a: int, b: int|
        0 <= a <= b <= s.len() && r == s.subrange(a, b) && (forall|k: int|
            0 <= k < a ==> is_white_space(#[trigger] s[k])) && (forall|k: int|
            b <= k < s.len() ==> is_white_space(#[trigger] s[k])) && (a < b ==> !is_white_space(
            s[a]) && !is_white_space(s[b - 1]))
}

/// The number of characters, from the end of `s`, that fit together in fewer
/// than `limit` columns (after the `acc` columns already taken), and the
/// columns they take.
pub open spec fn fit_back(s: Seq<char>, acc: nat, limit: nat) -> (nat, nat)
    decreases s.len(),
{
    if s.len() == 0 {
        (0, acc)
    } else if acc + cols(s.last()) < limit {
        let (n, a) = fit_back(s.drop_last(), acc + cols(s.last()), limit);
        (n + 1, a)
    } else {
        (0, acc)
    }
}

/// The number of characters, from the start of `s`, that fit together in
/// `limit` columns (after the `acc` columns already taken).
pub open spec fn fit_front(s: Seq<char>, acc: nat, limit: nat) -> nat
    decreases s.len(),
{
    if s.len() == 0 {
        0
    } else if acc + cols(s[0]) <= limit {
        fit_front(s.drop_first(), acc + cols(s[0]), limit) + 1
    } else {
        0
    }
}

/// A key as the input understands it.
#[derive(Debug, Clone, Copy, PartialEq, Eq, Structural)]
pub enum EditKey {
    Char(char),
    Left,
    Right,
    Home,
    End,
    Backspace,
    Delete,
    Other,
}

/// The text, the cursor (a character index, at most the length) and the
/// first character shown.
#[derive(Debug)]
pub struct Input {
    input: Vec<char>,
    cursor_position: usize,
    scroll_offset: usize,
}

pub open spec fn clamp_spec(pos: int, len: int) -> int {
    if pos < len { pos } else { len }
}

/// The text and cursor after an editing key: a character is inserted at
/// the cursor (except tab and newline, which change nothing), the arrows
/// move the cursor, Home and End jump, Backspace and Delete remove the
/// character before or at the cursor.
pub open spec fn edited(t: Seq<char>, c: int, key: EditKey) -> (Seq<char>, int) {
    let left = if c > 0 { c - 1 } else { 0 };
    match key {
        EditKey::Char(ch) => if ch == '\t' || ch == '\n' {
            (t, c)
        } else {
            (t.take(c).push(ch) + t.skip(c), c + 1)
        },
        EditKey::Left => (t, left),
        EditKey::Right => (t, clamp_spec(c + 1, t.len() as int)),
        EditKey::Home => (t, 0),
        EditKey::End => (t, t.len() as int),
        EditKey::Backspace => (t.take(left) + t.skip(c), left),
        EditKey::Delete => (t.take(c) + t.skip(clamp_spec(c + 1, t.len() as int)), c),
        EditKey::Other => (t, c),
    }
}

impl Input {
    #[verifier::type_invariant]
    spec fn inv(self) -> bool {
        self.cursor_position <= self.input@.len()
    }

    /// The text.
    pub closed spec fn text(self) -> Seq<char> {
        self.input@
    }

    /// The cursor position, a character index.
    pub closed spec fn cursor(self) -> int {
        self.cursor_position as int
    }

    /// The first character shown.
    pub closed spec fn scroll(self) -> int {
        self.scroll_offset as int
    }

    /// An input holding `input`, with the cursor at `cursor_position` or at
    /// the end when that is past it.
    pub fn new(input: &str, cursor_position: usize) -> (r: Input)
        ensures
            r.text() == input@,
            r.cursor() == clamp_spec(cursor_position as int, input@.len() as int),
            r.scroll() == 0,
    {
        let chars = chars_of(input);
        let len = chars.len();
        Input {
            input: chars,
            cursor_position: if cursor_position < len { cursor_position } else { len },
            scroll_offset: 0,
        }
    }

    /// The cursor position, which lies within the text.
    pub fn cursor_position(&self) -> (r: usize)
        ensures
            r == self.cursor(),
            0 <= self.cursor() <= self.text().len(),
    {
        proof {
            use_type_invariant(self);
        }
        self.cursor_position
    }

    /// The text with leading and trailing white space removed.
    pub fn value(&self) -> (r: String)
        ensures
            is_trim_of(self.text(), r@),
    {
        let n = self.input.len();
        let mut a: usize = 0;
        while a < n && white_space_char(self.input[a])
            invariant
                a <= n,
                n == self.input@.len(),
                forall|k: int| 0 <= k < a ==> is_white_space(#[trigger] self.input@[k]),
            decreases n - a,
        {
            a += 1;
        }
        let mut b: usize = n;
        while b > a && white_space_char(self.input[b - 1])
            invariant
                a <= b <= n,
                n == self.input@.len(),
                forall|k: int| b <= k < n ==> is_white_space(#[trigger] self.input@[k]),
            decreases b,
        {
            b -= 1;
        }
        let mut r = String::new();
        let mut i = a;
        while i < b
            invariant
                a <= i <= b <= n,
                n == self.input@.len(),
                r@ == self.input@.subrange(a as int, i as int),
            decreases b - i,
        {
            push_char(&mut r, self.input[i]);
            assert(self.input@.subrange(a as int, i + 1) =~= self.input@.subrange(a as int, i as int).push(
                self.input@[i as int],
            ));
            i += 1;
        }
        assert(is_trim_of(self.text(), r@)) by {
            assert(r@ == self.input@.subrange(a as int, b as int));
        }
        r
    }

    fn clamp_cursor(&self, new_cursor_pos: usize) -> (r: usize)
        ensures
            r == clamp_spec(new_cursor_pos as int, self.text().len() as int),
    {
        let len = self.input.len();
        if new_cursor_pos < len { new_cursor_pos } else { len }
    }

    fn move_cursor_left(&mut self)
        ensures
            final(self).text() == old(self).text(),
            final(self).cursor() == if old(self).cursor() > 0 { old(self).cursor() - 1 } else { 0 },
            final(self).scroll() == old(self).scroll(),
    {
        proof { use_type_invariant(&*self); }
        self.cursor_position = self.clamp_cursor(self.cursor_position.saturating_sub(1));
    }

    fn move_cursor_right(&mut self)
        ensures
            final(self).text() == old(self).text(),
            final(self).cursor() == clamp_spec(old(self).cursor() + 1, old(self).text().len() as int),
            final(self).scroll() == old(self).scroll(),
    {
        proof { use_type_invariant(&*self); }
        if self.cursor_position < self.input.len() {
            self.cursor_position = self.cursor_position + 1;
        }
    }

    fn enter_char(&mut self, new_char: char)
        ensures
            final(self).text() == old(self).text().take(old(self).cursor()).push(new_char) + old(
                self,
            ).text().skip(old(self).cursor()),
            final(self).cursor() == old(self).cursor() + 1,
            final(self).scroll() == old(self).scroll(),
    {
        proof { use_type_invariant(&*self); }
        let ghost t = self.input@;
        let c = self.cursor_position;
        let mut v = self.input.clone();
        v.insert(c, new_char);
        assert(v@ =~= t.take(c as int).push(new_char) + t.skip(c as int));
        self.input = v;
        self.move_cursor_right();
    }

    fn delete_char_left(&mut self)
        ensures
            final(self).text() == old(self).text().take(
                if old(self).cursor() > 0 { old(self).cursor() - 1 } else { 0 },
            ) + old(self).text().skip(old(self).cursor()),
            final(self).cursor() == if old(self).cursor() > 0 { old(self).cursor() - 1 } else { 0 },
            final(self).scroll() == old(self).scroll(),
    {
        proof { use_type_invariant(&*self); }
        let ghost t = self.input@;
        let c = self.cursor_position;
        if c > 0 {
            let mut v = self.input.clone();
            v.remove(c - 1);
            assert(v@ =~= t.take(c - 1) + t.skip(c as int));
            *self = Input { input: v, cursor_position: c - 1, scroll_offset: self.scroll_offset };
        } else {
            assert(t =~= t.take(0) + t.skip(0));
        }
    }

    fn delete_char_right(&mut self)
        ensures
            final(self).text() == old(self).text().take(old(self).cursor()) + old(self).text().skip(
                clamp_spec(old(self).cursor() + 1, old(self).text().len() as int),
            ),
            final(self).cursor() == old(self).cursor(),
            final(self).scroll() == old(self).scroll(),
    {
        proof { use_type_invariant(&*self); }
        let ghost t = self.input@;
        let c = self.cursor_position;
        if c < self.input.len() {
            let mut v = self.input.clone();
            v.remove(c);
            assert(v@ =~= t.take(c as int) + t.skip(c + 1));
            self.input = v;
        } else {
            assert(t =~= t.take(c as int) + t.skip(c as int));
        }
    }

    /// Applies a key: a character is inserted at the cursor (except tab and
    /// newline, which are left to the caller), the arrows move the cursor,
    /// Home and End jump, Backspace and Delete remove the character before or
    /// at the cursor.  Returns whether the key was handled.
    pub fn handle_key(&mut self, key: EditKey) -> (handled: bool)
        ensures
            handled == !(key == EditKey::Other || key == EditKey::Char('\t') || key == EditKey::Char(
                '\n',
            )),
            final(self).scroll() == old(self).scroll(),
            (final(self).text(), final(self).cursor()) == edited(old(self).text(), old(self).cursor(), key),
    {
        match key {
            EditKey::Char(c) => {
                if c == '\t' || c == '\n' {
                    false
                } else {
                    self.enter_char(c);
                    true
                }
            },
            EditKey::Left => {
                self.move_cursor_left();
                true
            },
            EditKey::Right => {
                self.move_cursor_right();
                true
            },
            EditKey::Home => {
                self.cursor_position = 0;
                true
            },
            EditKey::End => {
                // The byte length is clamped to the character count.
                self.cursor_position = self.input.len();
                true
            },
            EditKey::Backspace => {
                self.delete_char_left();
                true
            },
            EditKey::Delete => {
                self.delete_char_right();
                true
            },
            EditKey::Other => false,
        }
    }

    /// Scrolls the input for a field `width` columns wide and tall `height`
    /// lines so that the cursor is visible, and returns the text shown and
    /// the column of the cursor; nothing when the field is empty.  The cursor
    /// stays at most one column short of the right edge; the scroll offset
    /// moves back as little as needed.
    pub fn layout(&mut self, width: u16, height: u16) -> (r: Option<(String, usize)>)
        ensures
            final(self).text() == old(self).text(),
            final(self).cursor() == old(self).cursor(),
            (width == 0 || height == 0) ==> r is None && final(self).scroll() == old(self).scroll(),
            (width != 0 && height != 0) ==> ({
                let t = old(self).text();
                let c = old(self).cursor();
                let so = if old(self).scroll() > c { c } else { old(self).scroll() };
                let (n, cw) = fit_back(t.subrange(so, c), 0, width as nat);
                let new_so = c - n;
                &&& final(self).scroll() == new_so
                &&& r matches Some((shown, cursor_x)) && cursor_x == cw && shown@ == t.skip(new_so).take(
                    fit_front(t.skip(new_so), 0, width as nat) as int,
                )
            }),
    {
        proof { use_type_invariant(&*self); }
        if width == 0 || height == 0 {
            return None;
        }
        let limit = width as usize;
        if self.scroll_offset > self.cursor_position {
            self.scroll_offset = self.cursor_position;
        }
        let so = self.scroll_offset;
        let c = self.cursor_position;
        let ghost seg = self.input@.subrange(so as int, c as int);
        // Characters before the cursor that still fit, walking back.
        let mut n: usize = 0;
        let mut acc: usize = 0;
        let mut stopped = false;
        assert(seg.take(seg.len() as int) =~= seg);
        while n < c - so && !stopped
            invariant
                so <= c <= self.input@.len(),
                seg == self.input@.subrange(so as int, c as int),
                n <= c - so,
                acc < limit,
                limit == width as usize,
                !stopped ==> fit_back(seg, 0, limit as nat) == ({
                    let (m, a) = fit_back(seg.take(seg.len() - n), acc as nat, limit as nat);
                    ((m + n) as nat, a)
                }),
                stopped ==> fit_back(seg, 0, limit as nat) == (n as nat, acc as nat),
            decreases c - so - n, if stopped { 0int } else { 1int },
        {
            let ch = self.input[c - 1 - n];
            let w = cols_of(ch);
            proof {
                let s = seg.take(seg.len() - n);
                assert(s.last() == ch);
                assert(s.drop_last() =~= seg.take(seg.len() - (n + 1)));
            }
            if w < limit - acc {
                acc = acc + w;
                n = n + 1;
            } else {
                stopped = true;
            }
        }
        proof {
            if !stopped {
                assert(seg.take(seg.len() - n) =~= Seq::<char>::empty());
            }
        }
        let new_so = c - n;
        self.scroll_offset = new_so;
        // Characters from the scroll offset on that fit in the field.
        let ghost rest = self.input@.skip(new_so as int);
        let mut k: usize = 0;
        let mut sw: usize = 0;
        let mut shown = String::new();
        let mut stopped2 = false;
        assert(rest.skip(0) =~= rest);
        while k < self.input.len() - new_so && !stopped2
            invariant
                new_so <= self.input@.len(),
                rest == self.input@.skip(new_so as int),
                new_so + k <= self.input@.len(),
                sw <= limit,
                limit == width as usize,
                shown@ == rest.take(k as int),
                !stopped2 ==> fit_front(rest, 0, limit as nat) == fit_front(rest.skip(k as int), sw as nat, limit as nat) + k,
                stopped2 ==> fit_front(rest, 0, limit as nat) == k,
            decreases self.input@.len() - new_so - k, if stopped2 { 0int } else { 1int },
        {
            let ch = self.input[new_so + k];
            let w = cols_of(ch);
            proof {
                assert(rest.skip(k as int)[0] == ch);
                assert(rest.skip(k as int).drop_first() =~= rest.skip(k + 1));
            }
            if w <= limit - sw {
                sw = sw + w;
                push_char(&mut shown, ch);
                assert(rest.take(k + 1) =~= rest.take(k as int).push(ch));
                k = k + 1;
            } else {
                stopped2 = true;
            }
        }
        proof {
            if !stopped2 {
                assert(rest.skip(k as int).len() == 0);
            }
        }
        Some((shown, acc))
    }
}

/// Typing a character and then Backspace leaves the text as it was, and the
/// cursor where it was.
pub proof fn law_type_then_backspace(t: Seq<char>, c: int, ch: char)
    requires
        0 <= c <= t.len(),
    ensures
        ({
            let t1 = t.take(c).push(ch) + t.skip(c);
            let c1 = c + 1;
            &&& t1.take(c1 - 1) + t1.skip(c1) == t
            &&& c1 - 1 == c
        }),
{
    let t1 = t.take(c).push(ch) + t.skip(c);
    assert(t1.take(c) =~= t.take(c));
    assert(t1.skip(c + 1) =~= t.skip(c));
    assert(t.take(c) + t.skip(c) =~= t);
}

} // verus!
