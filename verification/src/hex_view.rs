//! The arithmetic of the hex viewer: line width, scrolling limits, the
//! position shown, searching bytes, and the text of the hex and character
//! columns.

use vstd::prelude::*;
use crate::strings::{chars_of, push_char};
use crate::input::is_white_space;
use vstd::utf8::encode_utf8;

verus! {

broadcast use vstd::string::group_string_axioms;

/// How the viewer shows the file.
#[derive(Debug, Clone, Copy, PartialEq, Eq, Structural)]
pub enum ViewerType {
    /// Hex bytes grouped by four, with the characters alongside.
    Hex,
    /// Characters only.
    Dump,
}

/// The number of bytes per line for a view `rect_width` columns wide with an
/// address column `len_address` wide: whole groups of four bytes (each group
/// takes seventeen columns), at least one, in hex view; a multiple of sixteen,
/// at least sixteen, in dump view.
pub open spec fn line_width_spec(viewer_type: ViewerType, rect_width: int, len_address: int) -> int {
    match viewer_type {
        ViewerType::Hex => {
            let width = if rect_width > len_address + 4 { rect_width - (len_address + 4) } else { 0 };
            let num_dwords = if width / 17 > 1 { width / 17 } else { 1 };
            num_dwords * 4
        },
        ViewerType::Dump => {
            let width = if rect_width > len_address + 1 { rect_width - (len_address + 1) } else { 0 };
            let w = width - width % 16;
            if w > 16 { w } else { 16 }
        },
    }
}

pub fn line_width(viewer_type: ViewerType, rect_width: u16, len_address: usize) -> (r: usize)
    requires
        len_address + 4 <= usize::MAX,
    ensures
        r == line_width_spec(viewer_type, rect_width as int, len_address as int),
{
    match viewer_type {
        ViewerType::Hex => {
            let width = (rect_width as usize).saturating_sub(len_address + 4);
            let num_dwords = if width / 17 > 1 { width / 17 } else { 1 };
            assert(num_dwords <= 65535);
            num_dwords * 4
        },
        ViewerType::Dump => {
            let width = (rect_width as usize).saturating_sub(len_address + 1);
            let w = width - width % 16;
            if w > 16 { w } else { 16 }
        },
    }
}

/// The offset just after the last byte, rounded up to a whole line.
pub open spec fn last_line(file_length: int, line_width: int) -> int {
    if line_width == 0 {
        file_length
    } else if file_length % line_width == 0 {
        file_length
    } else {
        file_length - file_length % line_width + line_width
    }
}

/// The first offset shown, pulled back so that the view does not extend past
/// the last line.
pub open spec fn clamp_offset_spec(offset: int, file_length: int, line_width: int, height: int) -> int {
    let last = last_line(file_length, line_width);
    if offset + height * line_width > last {
        if last > height * line_width { last - height * line_width } else { 0 }
    } else {
        offset
    }
}

/// Clamps the first offset shown so that the view of `height` lines of
/// `line_width` bytes does not extend past the last line of the file.
pub fn clamp_offset(offset: u64, file_length: u64, line_width: usize, height: u16) -> (r: u64)
    requires
        file_length + line_width <= u64::MAX,
        offset + height * line_width <= u64::MAX,
    ensures
        r == clamp_offset_spec(offset as int, file_length as int, line_width as int, height as int),
{
    let w = line_width as u64;
    let last: u64 = if w == 0 {
        file_length
    } else {
        let n = file_length % w;
        assert(file_length % w <= file_length) by (nonlinear_arith)
            requires
                w > 0,
        ;
        if n == 0 { file_length } else { file_length - n + w }
    };
    assert(0 <= height * line_width <= height * line_width) by (nonlinear_arith);
    let span: u64 = (height as u64) * w;
    if offset + span > last {
        last.saturating_sub(span)
    } else {
        offset
    }
}

/// The first offset of the line holding `pos`.
pub fn line_start(pos: u64, line_width: usize) -> (r: u64)
    ensures
        r == if line_width == 0 { pos as int } else { pos as int - (pos as int) % (line_width as int) },
{
    if line_width == 0 {
        pos
    } else {
        let w = line_width as u64;
        assert(pos % w <= pos) by (nonlinear_arith)
            requires
                w > 0,
        ;
        pos - pos % w
    }
}

/// How far into the file the end of the view is, in percent.
pub fn position_percent(end_offset: u64, file_length: u64) -> (r: u64)
    requires
        file_length * 100 <= u64::MAX,
    ensures
        r == if file_length == 0 {
            100
        } else {
            (if end_offset < file_length { end_offset as int } else { file_length as int }) * 100
                / (file_length as int)
        },
{
    if file_length == 0 {
        100
    } else {
        let m = if end_offset < file_length { end_offset } else { file_length };
        assert(m * 100 <= file_length * 100) by (nonlinear_arith)
            requires
                m <= file_length,
        ;
        (m * 100) / file_length
    }
}

/// `expression` occurs in `buffer` at `pos`.
pub open spec fn occurs_at(buffer: Seq<u8>, expression: Seq<u8>, pos: int) -> bool {
    0 <= pos && pos + expression.len() <= buffer.len() && buffer.subrange(pos, pos
        + expression.len()) == expression
}

fn matches_at(buffer: &[u8], expression: &[u8], pos: usize) -> (r: bool)
    requires
        pos + expression@.len() <= buffer@.len(),
    ensures
        r == occurs_at(buffer@, expression@, pos as int),
{
    let blen = buffer.len();
    let mut k: usize = 0;
    while k < expression.len()
        invariant
            blen == buffer@.len(),
            k <= expression@.len(),
            pos + expression@.len() <= buffer@.len(),
            forall|j: int| 0 <= j < k ==> buffer@[pos + j] == expression@[j],
        decreases expression.len() - k,
    {
        if buffer[pos + k] != expression[k] {
            assert(buffer@.subrange(pos as int, pos + expression@.len())[k as int] != expression@[k as int]);
            return false;
        }
        k += 1;
    }
    assert(buffer@.subrange(pos as int, pos + expression@.len()) =~= expression@);
    true
}

/// The first place at or after `q` where `e` occurs in `s`.
pub open spec fn first_match_from(s: Seq<u8>, e: Seq<u8>, q: int) -> Option<int>
    decreases s.len() - q,
{
    if q < 0 || q >= s.len() || q + e.len() > s.len() {
        None
    } else if occurs_at(s, e, q) {
        Some(q)
    } else {
        first_match_from(s, e, q + 1)
    }
}

proof fn lemma_first_match_spec(s: Seq<u8>, e: Seq<u8>, q: int)
    requires
        q >= 0,
        e.len() > 0,
    ensures
        match first_match_from(s, e, q) {
            Some(p) => q <= p && occurs_at(s, e, p) && forall|r: int| q <= r < p ==> !occurs_at(s, e, r),
            None => forall|r: int| r >= q ==> !occurs_at(s, e, r),
        },
    decreases s.len() - q,
{
    if q < s.len() && q + e.len() <= s.len() && !occurs_at(s, e, q) {
        lemma_first_match_spec(s, e, q + 1);
    }
}

/// The first position of `expression` in `buffer`.
pub fn find_first(buffer: &[u8], expression: &[u8]) -> (r: Option<usize>)
    requires
        expression@.len() > 0,
    ensures
        match r {
            Some(p) => occurs_at(buffer@, expression@, p as int) && forall|q: int|
                0 <= q < p ==> !occurs_at(buffer@, expression@, q),
            None => forall|q: int| !occurs_at(buffer@, expression@, q),
        },
        first_match_from(buffer@, expression@, 0) == match r {
            Some(p) => Some(p as int),
            None => None::<int>,
        },
{
    proof {
        lemma_first_match_spec(buffer@, expression@, 0);
    }
    if expression.len() > buffer.len() {
        proof {
            lemma_first_match_none(buffer@, expression@, 0);
        }
        return None;
    }
    let last = buffer.len() - expression.len();
    let mut p: usize = 0;
    while p <= last
        invariant
            expression@.len() > 0,
            last < usize::MAX,
            last + expression@.len() == buffer@.len(),
            forall|q: int| 0 <= q < p ==> !occurs_at(buffer@, expression@, q),
        decreases last + 1 - p,
    {
        if matches_at(buffer, expression, p) {
            proof {
                lemma_first_match_unique(buffer@, expression@, 0, p as int);
            }
            return Some(p);
        }
        p += 1;
    }
    proof {
        assert forall|r: int| r >= 0 implies !occurs_at(buffer@, expression@, r) by {
            if r >= p {
                assert(r + expression@.len() > buffer@.len());
            }
        }
        lemma_first_match_none(buffer@, expression@, 0);
    }
    None
}

/// The last position of `expression` in `buffer`.
pub fn find_last(buffer: &[u8], expression: &[u8]) -> (r: Option<usize>)
    requires
        expression@.len() > 0,
    ensures
        match r {
            Some(p) => occurs_at(buffer@, expression@, p as int) && forall|q: int|
                p < q ==> !occurs_at(buffer@, expression@, q),
            None => forall|q: int| !occurs_at(buffer@, expression@, q),
        },
{
    if expression.len() > buffer.len() {
        return None;
    }
    let mut p: usize = buffer.len() - expression.len() + 1;
    while p > 0
        invariant
            p + expression@.len() <= buffer@.len() + 1,
            forall|q: int| p <= q ==> !occurs_at(buffer@, expression@, q),
        decreases p,
    {
        if matches_at(buffer, expression, p - 1) {
            return Some(p - 1);
        }
        p -= 1;
    }
    None
}

/// The style of a cell of a line: the bytes of the first and of the second
/// group of four in each eight alternate, and matches are highlighted.
#[derive(Debug, Clone, Copy, PartialEq, Eq, Structural)]
pub enum CellStyle {
    Even,
    Odd,
    Highlighted,
}

pub open spec fn group_style(i: int) -> CellStyle {
    if i % 8 < 4 { CellStyle::Even } else { CellStyle::Odd }
}

pub open spec fn byte_style(i: int, highlighted: bool) -> CellStyle {
    if highlighted { CellStyle::Highlighted } else { group_style(i) }
}

/// The uppercase hexadecimal digit of `d` (below sixteen).
pub open spec fn hex_digit(d: int) -> char {
    if d < 10 { ((d + 48) as u8) as char } else { ((d + 55) as u8) as char }
}

/// The cells of one byte in the hex column: a space before each group of
/// four, the two hex digits, and a space.
pub open spec fn hex_cells_of(i: int, highlighted: bool, c: u8) -> Seq<(Seq<char>, CellStyle)> {
    let digits = (seq![hex_digit((c / 16) as int), hex_digit((c % 16) as int)], byte_style(i, highlighted));
    let space = (seq![' '], group_style(i));
    if i % 4 == 0 {
        seq![space, digits, space]
    } else {
        seq![digits, space]
    }
}

pub open spec fn hex_cells(line: Seq<(bool, u8)>) -> Seq<(Seq<char>, CellStyle)>
    decreases line.len(),
{
    if line.len() == 0 {
        Seq::empty()
    } else {
        hex_cells(line.drop_last()) + hex_cells_of(
            line.len() - 1,
            line.last().0,
            line.last().1,
        )
    }
}

/// The character shown for a byte: itself when printable ASCII, else a
/// middle dot.
pub open spec fn masked_char(c: u8) -> char {
    if 0x20 <= c < 0x7F { c as char } else { '\u{00B7}' }
}

pub open spec fn masked_cells(line: Seq<(bool, u8)>) -> Seq<(Seq<char>, CellStyle)> {
    Seq::new(
        line.len(),
        |i: int| (seq![masked_char(line[i].1)], byte_style(i, line[i].0)),
    )
}

pub open spec fn cells_view(v: Seq<(String, CellStyle)>) -> Seq<(Seq<char>, CellStyle)> {
    v.map_values(|p: (String, CellStyle)| (p.0@, p.1))
}

fn hex_digit_char(d: u8) -> (c: char)
    requires
        d < 16,
    ensures
        c == hex_digit(d as int),
{
    if d < 10 { (d + 48) as char } else { (d + 55) as char }
}

fn group_style_exec(i: usize) -> (s: CellStyle)
    ensures
        s == group_style(i as int),
{
    if i % 8 < 4 { CellStyle::Even } else { CellStyle::Odd }
}

fn one_char(c: char) -> (s: String)
    ensures
        s@ == seq![c],
{
    let mut s = String::new();
    push_char(&mut s, c);
    assert(s@ =~= seq![c]);
    s
}

/// The cells of the hex column of a line of (highlighted, byte) pairs.
pub fn hex_string(line: &[(bool, u8)]) -> (r: Vec<(String, CellStyle)>)
    ensures
        cells_view(r@) == hex_cells(line@),
{
    let mut r: Vec<(String, CellStyle)> = Vec::new();
    let mut i: usize = 0;
    assert(line@.take(0) =~= Seq::<(bool, u8)>::empty());
    while i < line.len()
        invariant
            i <= line@.len(),
            cells_view(r@) =~= hex_cells(line@.take(i as int)),
        decreases line.len() - i,
    {
        let (highlighted, c) = line[i];
        let ghost before = cells_view(r@);
        let style = group_style_exec(i);
        let mut digits = String::new();
        push_char(&mut digits, hex_digit_char(c / 16));
        push_char(&mut digits, hex_digit_char(c % 16));
        let ghost dv = digits@;
        assert(dv =~= seq![hex_digit((c / 16) as int), hex_digit((c % 16) as int)]);
        let dstyle = if highlighted { CellStyle::Highlighted } else { style };
        if i % 4 == 0 {
            r.push((one_char(' '), style));
            r.push((digits, dstyle));
            r.push((one_char(' '), style));
            assert(cells_view(r@) =~= before + seq![(seq![' '], style), (dv, dstyle), (seq![' '], style)]);
        } else {
            r.push((digits, dstyle));
            r.push((one_char(' '), style));
            assert(cells_view(r@) =~= before + seq![(dv, dstyle), (seq![' '], style)]);
        }
        proof {
            assert(line@.take(i + 1).drop_last() =~= line@.take(i as int));
            assert(line@.take(i + 1).last() == line@[i as int]);
            assert(cells_view(r@) =~= before + hex_cells_of(i as int, highlighted, c));
        }
        i += 1;
    }
    assert(line@.take(i as int) =~= line@);
    r
}

/// The cells of the character column of a line of (highlighted, byte) pairs.
pub fn masked_string(line: &[(bool, u8)]) -> (r: Vec<(String, CellStyle)>)
    ensures
        cells_view(r@) == masked_cells(line@),
{
    let mut r: Vec<(String, CellStyle)> = Vec::new();
    let mut i: usize = 0;
    while i < line.len()
        invariant
            i <= line@.len(),
            cells_view(r@) =~= masked_cells(line@).take(i as int),
        decreases line.len() - i,
    {
        let (highlighted, c) = line[i];
        let ch = if 0x20 <= c && c < 0x7F { c as char } else { '\u{00B7}' };
        let style = if highlighted { CellStyle::Highlighted } else { group_style_exec(i) };
        let ghost before = cells_view(r@);
        r.push((one_char(ch), style));
        assert(cells_view(r@) =~= before.push((seq![ch], style)));
        i += 1;
    }
    r
}


/// A movement of the view.
#[derive(Debug, Clone, Copy, PartialEq, Eq, Structural)]
pub enum HexMove {
    Up,
    Down,
    Home,
    End,
    PageUp,
    PageDown,
}

/// The offset a movement aims at, before clamping.
pub open spec fn move_target(mv: HexMove, offset: int, file_length: int, line_width: int, height: int) -> int {
    let page = (if height >= 1 { height - 1 } else { 0 }) * line_width;
    match mv {
        HexMove::Up => if offset >= line_width { offset - line_width } else { 0 },
        HexMove::Down => offset + line_width,
        HexMove::Home => 0,
        HexMove::End => file_length,
        HexMove::PageUp => if offset >= page { offset - page } else { 0 },
        HexMove::PageDown => offset + page,
    }
}

/// The first offset shown after a movement: one line or a page (the height
/// less one line) up or down, or to either end, then clamped.
pub fn move_offset(mv: HexMove, offset: u64, file_length: u64, line_width: usize, height: u16) -> (r: u64)
    requires
        file_length + line_width <= u64::MAX,
        offset + line_width + 2 * height * line_width <= u64::MAX,
        file_length + height * line_width <= u64::MAX,
    ensures
        r == clamp_offset_spec(
            move_target(mv, offset as int, file_length as int, line_width as int, height as int),
            file_length as int,
            line_width as int,
            height as int,
        ),
{
    let w = line_width as u64;
    assert(0 <= (height as int) * (line_width as int)) by (nonlinear_arith);
    let h1: u64 = if height >= 1 { (height - 1) as u64 } else { 0 };
    assert(h1 * w <= height * line_width) by (nonlinear_arith)
        requires
            h1 <= height,
            w == line_width,
    ;
    let page: u64 = h1 * w;
    assert(0 <= page <= height * line_width);
    assert(2 * height * line_width == height * line_width + height * line_width) by (nonlinear_arith);
    let target: u64 = match mv {
        HexMove::Up => offset.saturating_sub(w),
        HexMove::Down => offset + w,
        HexMove::Home => 0,
        HexMove::End => file_length,
        HexMove::PageUp => offset.saturating_sub(page),
        HexMove::PageDown => offset + page,
    };
    assert(target + height * line_width <= u64::MAX);
    clamp_offset(target, file_length, line_width, height)
}

/// Where searching forward resumes: the start of the line after the line of
/// the last match, or the end of the file.
pub fn search_next_start(search_pos: u64, line_width: usize, file_length: u64) -> (r: u64)
    requires
        search_pos + line_width <= u64::MAX,
    ensures
        r == ({
            let s = if line_width == 0 { search_pos as int } else { search_pos as int - (search_pos as int) % (line_width as int) };
            if s + line_width < file_length { s + line_width } else { file_length as int }
        }),
{
    let s = line_start(search_pos, line_width);
    let n = s + line_width as u64;
    if n < file_length { n } else { file_length }
}

/// The hexadecimal digits.
pub open spec fn is_hex_digit(c: char) -> bool {
    ('0' <= c && c <= '9') || ('a' <= c && c <= 'f') || ('A' <= c && c <= 'F')
}

pub open spec fn hex_value(c: char) -> int {
    if '0' <= c && c <= '9' {
        c as int - '0' as int
    } else if 'a' <= c && c <= 'f' {
        c as int - 'a' as int + 10
    } else {
        c as int - 'A' as int + 10
    }
}

fn hex_value_exec(c: char) -> (r: Option<u8>)
    ensures
        match r {
            Some(v) => is_hex_digit(c) && v == hex_value(c),
            None => !is_hex_digit(c),
        },
{
    if '0' <= c && c <= '9' {
        Some((c as u32 - '0' as u32) as u8)
    } else if 'a' <= c && c <= 'f' {
        Some((c as u32 - 'a' as u32 + 10) as u8)
    } else if 'A' <= c && c <= 'F' {
        Some((c as u32 - 'A' as u32 + 10) as u8)
    } else {
        None
    }
}

/// The number written in hexadecimal by `digits`.
pub open spec fn hex_number(digits: Seq<char>) -> int
    decreases digits.len(),
{
    if digits.len() == 0 {
        0
    } else {
        hex_number(digits.drop_last()) * 16 + hex_value(digits.last())
    }
}

/// What `u64::from_str_radix(s, 16)` accepts: an optional `+` and then one or
/// more hexadecimal digits whose value fits in 64 bits.
/// The digits after an optional leading `+`.
pub open spec fn unsigned_digits(s: Seq<char>) -> Seq<char> {
    if s.len() > 0 && s[0] == '+' { s.skip(1) } else { s }
}

pub open spec fn parse_hex_u64_spec(s: Seq<char>) -> Option<u64> {
    let digits = unsigned_digits(s);
    if digits.len() > 0 && (forall|k: int| 0 <= k < digits.len() ==> is_hex_digit(#[trigger] digits[k]))
        && hex_number(digits) <= u64::MAX {
        Some(hex_number(digits) as u64)
    } else {
        None
    }
}

/// `s` without a leading `0x` or `0X`.
pub open spec fn strip_hex_prefix(s: Seq<char>) -> Seq<char> {
    if s.len() >= 2 && s[0] == '0' && (s[1] == 'x' || s[1] == 'X') {
        s.skip(2)
    } else {
        s
    }
}

proof fn lemma_hex_number_nonneg(d: Seq<char>)
    requires
        forall|k: int| 0 <= k < d.len() ==> is_hex_digit(#[trigger] d[k]),
    ensures
        hex_number(d) >= 0,
    decreases d.len(),
{
    if d.len() > 0 {
        lemma_hex_number_nonneg(d.drop_last());
    }
}

proof fn lemma_hex_number_grows(d: Seq<char>)
    requires
        d.len() > 0,
        forall|k: int| 0 <= k < d.len() ==> is_hex_digit(#[trigger] d[k]),
    ensures
        hex_number(d) >= hex_number(d.drop_last()) * 16,
{
    assert(is_hex_digit(d[d.len() - 1]));
}

proof fn lemma_hex_number_prefix_bound(d: Seq<char>, i: int)
    requires
        0 <= i <= d.len(),
        forall|k: int| 0 <= k < d.len() ==> is_hex_digit(#[trigger] d[k]),
    ensures
        hex_number(d.take(i)) <= hex_number(d),
    decreases d.len() - i,
{
    if i < d.len() {
        lemma_hex_number_prefix_bound(d, i + 1);
        let t = d.take(i + 1);
        assert(t.drop_last() =~= d.take(i));
        assert forall|k: int| 0 <= k < t.len() implies is_hex_digit(#[trigger] t[k]) by {
            assert(t[k] == d[k]);
        }
        lemma_hex_number_nonneg(t.drop_last());
        lemma_hex_number_grows(t);
    } else {
        assert(d.take(i) =~= d);
    }
}

/// Parses a number written in hexadecimal, as `u64::from_str_radix(s, 16)`.
pub fn parse_hex_u64(s: &Vec<char>, from: usize) -> (r: Option<u64>)
    requires
        from <= s@.len(),
    ensures
        r == parse_hex_u64_spec(s@.skip(from as int)),
{
    let ghost t = s@.skip(from as int);
    let mut start = from;
    if start < s.len() && s[start] == '+' {
        start += 1;
    }
    let ghost digits = s@.skip(start as int);
    assert(digits =~= if t.len() > 0 && t[0] == '+' { t.skip(1) } else { t });
    if start >= s.len() {
        return None;
    }
    let mut value: u64 = 0;
    let mut i = start;
    while i < s.len()
        invariant
            start <= i <= s@.len(),
            start < s@.len(),
            digits == s@.skip(start as int),
            digits == unsigned_digits(s@.skip(from as int)),
            forall|k: int| 0 <= k < i - start ==> is_hex_digit(#[trigger] digits[k]),
            value == hex_number(digits.take(i - start)),
        decreases s.len() - i,
    {
        match hex_value_exec(s[i]) {
            Some(v) => {
                proof {
                    assert(digits[i - start] == s@[i as int]);
                    assert(digits.take(i - start + 1).drop_last() =~= digits.take(i - start));
                    assert(digits.take(i - start + 1).last() == s@[i as int]);
                }
                if value > (u64::MAX - v as u64) / 16 {
                    proof {
                        // The digits so far already exceed the limit, and so does the whole.
                        assert(hex_number(digits.take(i - start + 1)) > u64::MAX) by (nonlinear_arith)
                            requires
                                value > (u64::MAX - v) / 16,
                                hex_number(digits.take(i - start + 1)) == value * 16 + v,
                                0 <= v < 16,
                        ;
                        if forall|k: int| 0 <= k < digits.len() ==> is_hex_digit(#[trigger] digits[k]) {
                            lemma_hex_number_prefix_bound(digits, i - start + 1);
                        }
                    }
                    return None;
                }
                value = value * 16 + v as u64;
                i += 1;
            },
            None => {
                assert(!is_hex_digit(digits[i - start]));
                return None;
            },
        }
    }
    assert(digits.take(i - start) =~= digits);
    Some(value)
}

/// Parses the offset typed in the goto dialog: hexadecimal, with or without
/// a leading `0x` or `0X`.
pub fn parse_hex_offset(text: &str) -> (r: Option<u64>)
    ensures
        r == parse_hex_u64_spec(strip_hex_prefix(text@)),
{
    let v = chars_of(text);
    let from: usize = if v.len() >= 2 && v[0] == '0' && (v[1] == 'x' || v[1] == 'X') { 2 } else { 0 };
    assert(v@.skip(0) =~= v@);
    parse_hex_u64(&v, from)
}

/// `str::split(s, pred)`: the pieces of `s` between the characters that
/// satisfy `pred` (as many pieces as such characters, plus one).
pub open spec fn split_by(s: Seq<char>, pred: spec_fn(char) -> bool) -> Seq<Seq<char>>
    decreases s.len(),
{
    if s.len() == 0 {
        seq![Seq::empty()]
    } else {
        let r = split_by(s.drop_last(), pred);
        if pred(s.last()) {
            r.push(Seq::empty())
        } else {
            r.update(r.len() - 1, r.last().push(s.last()))
        }
    }
}

/// The non-empty pieces.
pub open spec fn nonempty(parts: Seq<Seq<char>>) -> Seq<Seq<char>>
    decreases parts.len(),
{
    if parts.len() == 0 {
        Seq::empty()
    } else {
        let r = nonempty(parts.drop_last());
        if parts.last().len() > 0 { r.push(parts.last()) } else { r }
    }
}

/// `str::split_whitespace`: the non-empty runs of non-white-space characters.
pub open spec fn words(s: Seq<char>) -> Seq<Seq<char>> {
    nonempty(split_by(s, |c: char| is_white_space(c)))
}

/// The byte of a pair of characters, as `u8::from_str_radix(pair, 16)`: two
/// hexadecimal digits, or `+` and one.
pub open spec fn pair_byte(a: char, b: char) -> Option<u8> {
    if is_hex_digit(a) && is_hex_digit(b) {
        Some((hex_value(a) * 16 + hex_value(b)) as u8)
    } else if a == '+' && is_hex_digit(b) {
        Some(hex_value(b) as u8)
    } else {
        None
    }
}

/// The bytes of the pairs of `v` from `i` on.
pub open spec fn pairs_from(v: Seq<char>, i: int) -> Option<Seq<u8>>
    decreases v.len() - i,
{
    if i >= v.len() {
        Some(Seq::empty())
    } else if i + 1 >= v.len() || i < 0 {
        None
    } else {
        match pair_byte(v[i], v[i + 1]) {
            Some(b) => match pairs_from(v, i + 2) {
                Some(r) => Some(seq![b] + r),
                None => None,
            },
            None => None,
        }
    }
}

pub open spec fn all_ascii(v: Seq<char>) -> bool {
    forall|k: int| 0 <= k < v.len() ==> (#[trigger] v[k]) < '\u{80}'
}

/// The bytes of one hexadecimal word: an optional `0x` prefix, then pairs of
/// digits (a `0` is put in front of an odd number of them).  Any character
/// outside ASCII makes the word invalid.
pub open spec fn hex_word(w: Seq<char>) -> Option<Seq<u8>> {
    let v = strip_hex_prefix(w);
    if !all_ascii(v) {
        None
    } else {
        pairs_from(if v.len() % 2 == 1 { seq!['0'] + v } else { v }, 0)
    }
}

/// The bytes of a sequence of hexadecimal words, none if one is invalid.
pub open spec fn hex_words(ws: Seq<Seq<char>>) -> Option<Seq<u8>>
    decreases ws.len(),
{
    if ws.len() == 0 {
        Some(Seq::empty())
    } else {
        match (hex_words(ws.drop_last()), hex_word(ws.last())) {
            (Some(a), Some(b)) => Some(a + b),
            _ => None,
        }
    }
}

/// The bytes of the parts of a hex search from part `k` on: parts outside
/// double quotes are hexadecimal words, parts inside are taken as text
/// (UTF-8).
pub open spec fn search_parts(parts: Seq<Seq<char>>) -> Option<Seq<u8>>
    decreases parts.len(),
{
    if parts.len() == 0 {
        Some(Seq::empty())
    } else {
        let k = parts.len() - 1;
        let last: Option<Seq<u8>> = if k % 2 == 0 { hex_words(words(parts.last())) } else { Some(encode_utf8(parts.last())) };
        match (search_parts(parts.drop_last()), last) {
            (Some(a), Some(b)) => Some(a + b),
            _ => None,
        }
    }
}

/// The bytes a hexadecimal search string stands for.
pub open spec fn parse_hex_search_spec(s: Seq<char>) -> Option<Seq<u8>> {
    search_parts(split_by(s, |c: char| c == '"'))
}

pub open spec fn seqs_view(v: Seq<Vec<char>>) -> Seq<Seq<char>> {
    v.map_values(|w: Vec<char>| w@)
}

proof fn lemma_split_nonempty(s: Seq<char>, pred: spec_fn(char) -> bool)
    ensures
        split_by(s, pred).len() >= 1,
    decreases s.len(),
{
    if s.len() > 0 {
        lemma_split_nonempty(s.drop_last(), pred);
    }
}

fn split_quotes(v: &Vec<char>) -> (r: Vec<Vec<char>>)
    ensures
        seqs_view(r@) == split_by(v@, |c: char| c == '"'),
{
    let ghost pred = |c: char| c == '"';
    let mut r: Vec<Vec<char>> = Vec::new();
    r.push(Vec::new());
    let mut i: usize = 0;
    assert(v@.take(0) =~= Seq::<char>::empty());
    assert(seqs_view(r@) =~= seq![Seq::<char>::empty()]);
    while i < v.len()
        invariant
            i <= v@.len(),
            pred == (|c: char| c == '"'),
            seqs_view(r@) == split_by(v@.take(i as int), pred),
            r@.len() >= 1,
        decreases v.len() - i,
    {
        let c = v[i];
        proof {
            assert(v@.take(i + 1).drop_last() =~= v@.take(i as int));
            assert(v@.take(i + 1).last() == c);
        }
        let ghost before = seqs_view(r@);
        if c == '"' {
            r.push(Vec::new());
            assert(seqs_view(r@) =~= before.push(Seq::empty()));
        } else {
            let last = r.len() - 1;
            let mut w = r.remove(last);
            w.push(c);
            r.push(w);
            assert(seqs_view(r@) =~= before.update(before.len() - 1, before.last().push(c)));
        }
        i += 1;
    }
    assert(v@.take(i as int) =~= v@);
    r
}

fn split_words(v: &Vec<char>) -> (r: Vec<Vec<char>>)
    ensures
        seqs_view(r@) == words(v@),
{
    let ghost pred = |c: char| is_white_space(c);
    let mut done: Vec<Vec<char>> = Vec::new();
    let mut cur: Vec<char> = Vec::new();
    let mut i: usize = 0;
    assert(v@.take(0) =~= Seq::<char>::empty());
    proof {
        assert(split_by(v@.take(0), pred) =~= seq![Seq::<char>::empty()]);
        assert(split_by(v@.take(0), pred).drop_last() =~= Seq::<Seq<char>>::empty());
    }
    while i < v.len()
        invariant
            i <= v@.len(),
            pred == (|c: char| is_white_space(c)),
            split_by(v@.take(i as int), pred).len() >= 1,
            seqs_view(done@) == nonempty(split_by(v@.take(i as int), pred).drop_last()),
            cur@ == split_by(v@.take(i as int), pred).last(),
        decreases v.len() - i,
    {
        let c = v[i];
        let ghost sp = split_by(v@.take(i as int), pred);
        proof {
            assert(v@.take(i + 1).drop_last() =~= v@.take(i as int));
            assert(v@.take(i + 1).last() == c);
            lemma_split_nonempty(v@.take(i + 1), pred);
        }
        let ghost before = seqs_view(done@);
        if crate::input::white_space_char(c) {
            if cur.len() > 0 {
                done.push(cur);
                assert(seqs_view(done@) =~= before.push(sp.last()));
            }
            cur = Vec::new();
            proof {
                let sp2 = split_by(v@.take(i + 1), pred);
                assert(sp2 == sp.push(Seq::empty()));
                assert(sp2.drop_last() =~= sp);
                assert(sp.drop_last().push(sp.last()) =~= sp);
            }
        } else {
            cur.push(c);
            proof {
                let sp2 = split_by(v@.take(i + 1), pred);
                assert(sp2.drop_last() =~= sp.drop_last());
            }
        }
        i += 1;
    }
    assert(v@.take(i as int) =~= v@);
    let ghost sp = split_by(v@, pred);
    let ghost before = seqs_view(done@);
    if cur.len() > 0 {
        done.push(cur);
        assert(seqs_view(done@) =~= before.push(sp.last()));
    }
    assert(sp.drop_last().push(sp.last()) =~= sp);
    done
}

/// The bytes of one hexadecimal word.
fn parse_hex_word(w: &Vec<char>) -> (r: Option<Vec<u8>>)
    ensures
        match hex_word(w@) {
            Some(b) => r matches Some(x) && x@ == b,
            None => r is None,
        },
{
    let from: usize = if w.len() >= 2 && w[0] == '0' && (w[1] == 'x' || w[1] == 'X') { 2 } else { 0 };
    let ghost stripped = strip_hex_prefix(w@);
    assert(stripped =~= w@.skip(from as int));
    let mut v: Vec<char> = Vec::new();
    if (w.len() - from) % 2 == 1 {
        v.push('0');
    }
    let ghost pre = v@;
    let mut i = from;
    while i < w.len()
        invariant
            from <= i <= w@.len(),
            stripped == w@.skip(from as int),
            stripped == strip_hex_prefix(w@),
            v@ == pre + w@.subrange(from as int, i as int),
            forall|k: int| from <= k < i ==> (#[trigger] w@[k]) < '\u{80}',
        decreases w.len() - i,
    {
        if w[i] >= '\u{80}' {
            assert(stripped[i - from] == w@[i as int]);
            return None;
        }
        v.push(w[i]);
        assert(w@.subrange(from as int, i + 1) =~= w@.subrange(from as int, i as int).push(w@[i as int]));
        i += 1;
    }
    assert(w@.subrange(from as int, i as int) =~= stripped);
    assert(all_ascii(stripped)) by {
        assert forall|k: int| 0 <= k < stripped.len() implies (#[trigger] stripped[k]) < '\u{80}' by {
            assert(stripped[k] == w@[k + from]);
        }
    }
    let ghost padded = v@;
    assert(padded =~= if stripped.len() % 2 == 1 { seq!['0'] + stripped } else { stripped });
    let mut out: Vec<u8> = Vec::new();
    let mut j: usize = 0;
    assert(padded.len() % 2 == 0);
    while j < v.len()
        invariant
            v@ == padded,
            padded.len() % 2 == 0,
            stripped == strip_hex_prefix(w@),
            all_ascii(stripped),
            padded == (if stripped.len() % 2 == 1 { seq!['0'] + stripped } else { stripped }),
            j <= padded.len(),
            j % 2 == 0,
            pairs_from(padded, 0) == match pairs_from(padded, j as int) {
                Some(rest) => Some(out@ + rest),
                None => None::<Seq<u8>>,
            },
        decreases v.len() - j,
    {
        let a = v[j];
        let b = v[j + 1];
        let hb = hex_value_exec(b);
        let ha = hex_value_exec(a);
        let byte: Option<u8> = match (ha, hb) {
            (Some(x), Some(y)) => Some(x * 16 + y),
            (None, Some(y)) => if a == '+' { Some(y) } else { None },
            _ => None,
        };
        assert(byte == pair_byte(a, b));
        match byte {
            Some(x) => {
                let ghost before = out@;
                out.push(x);
                proof {
                    match pairs_from(padded, j + 2) {
                        Some(rest) => {
                            assert(before + (seq![x] + rest) =~= out@ + rest);
                        },
                        None => {},
                    }
                }
                j += 2;
            },
            None => {
                return None;
            },
        }
    }
    assert(out@ + Seq::<u8>::empty() =~= out@);
    Some(out)
}

fn encode_part(part: &Vec<char>) -> (r: Vec<u8>)
    ensures
        r@ == encode_utf8(part@),
{
    let mut s = String::new();
    let mut i: usize = 0;
    while i < part.len()
        invariant
            i <= part@.len(),
            s@ == part@.take(i as int),
        decreases part.len() - i,
    {
        push_char(&mut s, part[i]);
        assert(part@.take(i + 1) =~= part@.take(i as int).push(part@[i as int]));
        i += 1;
    }
    assert(part@.take(i as int) =~= part@);
    let bytes = s.as_str().as_bytes();
    let mut r: Vec<u8> = Vec::new();
    let mut k: usize = 0;
    while k < bytes.len()
        invariant
            k <= bytes@.len(),
            r@ == bytes@.take(k as int),
        decreases bytes.len() - k,
    {
        r.push(bytes[k]);
        assert(bytes@.take(k + 1) =~= bytes@.take(k as int).push(bytes@[k as int]));
        k += 1;
    }
    assert(bytes@.take(k as int) =~= bytes@);
    r
}

/// The bytes a hexadecimal search string stands for: outside double quotes,
/// white-space separated hexadecimal words (`0x` prefixes allowed); inside,
/// text taken as its UTF-8 bytes.  None when a word is not valid hex.
pub fn parse_hex_search(search_string: &str) -> (r: Option<Vec<u8>>)
    ensures
        match parse_hex_search_spec(search_string@) {
            Some(b) => r matches Some(x) && x@ == b,
            None => r is None,
        },
{
    let v = chars_of(search_string);
    let parts = split_quotes(&v);
    let ghost ps = seqs_view(parts@);
    let mut acc: Vec<u8> = Vec::new();
    let mut k: usize = 0;
    assert(ps.take(0) =~= Seq::<Seq<char>>::empty());
    while k < parts.len()
        invariant
            k <= parts@.len(),
            ps == seqs_view(parts@),
            ps == split_by(search_string@, |c: char| c == '"'),
            search_parts(ps.take(k as int)) == Some(acc@),
        decreases parts.len() - k,
    {
        proof {
            assert(ps.take(k + 1).drop_last() =~= ps.take(k as int));
            assert(ps.take(k + 1).last() == parts@[k as int]@);
        }
        if k % 2 == 0 {
            let ws = split_words(&parts[k]);
            let ghost wv = seqs_view(ws@);
            let mut j: usize = 0;
            let mut bytes: Vec<u8> = Vec::new();
            assert(wv.take(0) =~= Seq::<Seq<char>>::empty());
            while j < ws.len()
                invariant
                    j <= ws@.len(),
                    wv == seqs_view(ws@),
                    hex_words(wv.take(j as int)) == Some(bytes@),
                    k < parts@.len(),
                    k % 2 == 0,
                    ps == seqs_view(parts@),
                    ps == split_by(search_string@, |c: char| c == '"'),
                    wv == words(ps[k as int]),
                decreases ws.len() - j,
            {
                proof {
                    assert(wv.take(j + 1).drop_last() =~= wv.take(j as int));
                    assert(wv.take(j + 1).last() == ws@[j as int]@);
                }
                match parse_hex_word(&ws[j]) {
                    Some(b) => {
                        let mut t: usize = 0;
                        let ghost b0 = bytes@;
                        while t < b.len()
                            invariant
                                t <= b@.len(),
                                bytes@ == b0 + b@.take(t as int),
                            decreases b.len() - t,
                        {
                            bytes.push(b[t]);
                            assert(b@.take(t + 1) =~= b@.take(t as int).push(b@[t as int]));
                            t += 1;
                        }
                        assert(b@.take(t as int) =~= b@);
                    },
                    None => {
                        proof {
                            lemma_search_parts_none(ps, k as int);
                            lemma_hex_words_none(wv, j as int);
                        }
                        return None;
                    },
                }
                j += 1;
            }
            assert(wv.take(j as int) =~= wv);
            let ghost a0 = acc@;
            acc.append(&mut bytes);
            assert(acc@ =~= a0 + hex_words(wv).unwrap());
        } else {
            let mut b = encode_part(&parts[k]);
            let ghost a0 = acc@;
            acc.append(&mut b);
        }
        k += 1;
    }
    assert(ps.take(k as int) =~= ps);
    Some(acc)
}

/// When one word is invalid, so is the whole sequence of words.
proof fn lemma_hex_words_none(ws: Seq<Seq<char>>, j: int)
    requires
        0 <= j < ws.len(),
        hex_word(ws[j]) is None,
    ensures
        hex_words(ws) is None,
    decreases ws.len(),
{
    if j < ws.len() - 1 {
        lemma_hex_words_none(ws.drop_last(), j);
    }
}

/// When part `k` (outside quotes) is invalid, so is the whole search string.
proof fn lemma_search_parts_none(ps: Seq<Seq<char>>, k: int)
    requires
        0 <= k < ps.len(),
        k % 2 == 0,
    ensures
        hex_words(words(ps[k])) is None ==> search_parts(ps) is None,
    decreases ps.len(),
{
    if k < ps.len() - 1 {
        lemma_search_parts_none(ps.drop_last(), k);
    }
}

/// After clamping, the view does not extend past the last line, unless it
/// starts at the beginning of the file; and a view that fits is left alone.
pub proof fn law_clamp_offset(offset: int, file_length: int, line_width: int, height: int)
    requires
        0 <= offset,
        0 <= file_length,
        0 <= line_width,
        0 <= height,
    ensures
        clamp_offset_spec(offset, file_length, line_width, height) + height * line_width <= last_line(
            file_length,
            line_width,
        ) || clamp_offset_spec(offset, file_length, line_width, height) == 0,
        offset + height * line_width <= last_line(file_length, line_width) ==> clamp_offset_spec(
            offset,
            file_length,
            line_width,
            height,
        ) == offset,
{
}

/// A plain (not hexadecimal) search string stands for its UTF-8 bytes, and a
/// hexadecimal one without quotes for its words only.
pub proof fn law_search_without_quotes(s: Seq<char>)
    requires
        !s.contains('"'),
    ensures
        parse_hex_search_spec(s) == hex_words(words(s)),
{
    lemma_split_no_sep(s);
    let ps = split_by(s, |c: char| c == '"');
    assert(ps == seq![s]);
    assert(ps.len() == 1);
    assert(ps.last() == s);
    assert(ps.drop_last() =~= Seq::<Seq<char>>::empty());
    assert(search_parts(ps.drop_last()) == Some(Seq::<u8>::empty()));
    let w = hex_words(words(s));
    match w {
        Some(b) => {
            assert(Seq::<u8>::empty() + b =~= b);
            assert(search_parts(ps) == Some(b));
        },
        None => {
            assert(search_parts(ps) is None);
        },
    }
    assert(parse_hex_search_spec(s) == search_parts(ps));
}

proof fn lemma_split_no_sep(s: Seq<char>)
    requires
        !s.contains('"'),
    ensures
        split_by(s, |c: char| c == '"') == seq![s],
    decreases s.len(),
{
    if s.len() > 0 {
        let t = s.drop_last();
        assert(!t.contains('"')) by {
            if t.contains('"') {
                let k = choose|k: int| 0 <= k < t.len() && t[k] == '"';
                assert(s[k] == '"');
            }
        }
        lemma_split_no_sep(t);
        assert(s.last() != '"') by {
            assert(s[s.len() - 1] == s.last());
        }
        assert(t.push(s.last()) =~= s);
        assert(seq![t].update(0, t.push(s.last())) =~= seq![s]);
    } else {
        assert(s =~= Seq::<char>::empty());
    }
}


/// How many bytes a search reads at a time.
pub const SEARCH_CHUNK: u64 = 131072;

/// What a search does after looking through one chunk.
#[derive(Debug, Clone, Copy, PartialEq, Eq, Structural)]
pub enum ChunkStep {
    /// The expression starts at this offset.
    Found(u64),
    /// Look at the chunk from this offset next.
    Next(u64),
    /// The expression is not in the file.
    NotFound,
}

/// The number of bytes read at `search_pos` when searching forward: a
/// chunk, or what is left of the file.
pub open spec fn forward_chunk_len_spec(search_pos: int, file_length: int) -> int {
    if file_length - search_pos < SEARCH_CHUNK {
        if file_length >= search_pos { file_length - search_pos } else { 0 }
    } else {
        SEARCH_CHUNK as int
    }
}

/// The number of bytes read at `search_pos` when searching forward.
pub fn forward_chunk_len(search_pos: u64, file_length: u64) -> (r: u64)
    ensures
        r == forward_chunk_len_spec(search_pos as int, file_length as int),
{
    let rest = file_length.saturating_sub(search_pos);
    if rest < SEARCH_CHUNK { rest } else { SEARCH_CHUNK }
}

/// After a forward search through the `chunk_len` bytes at `search_pos`
/// (`found`: where the expression starts in them): the match, or the next
/// chunk, which overlaps this one by the expression's length less one byte
/// so that no match is missed, or the end of the file.
pub fn forward_step(search_pos: u64, chunk_len: u64, found: Option<usize>, expr_len: usize, file_length: u64) -> (r: ChunkStep)
    requires
        search_pos + chunk_len <= u64::MAX,
        found matches Some(p) ==> p < chunk_len,
    ensures
        r == match found {
            Some(p) => ChunkStep::Found((search_pos + p) as u64),
            None => if search_pos + chunk_len >= file_length {
                ChunkStep::NotFound
            } else if search_pos + chunk_len >= expr_len {
                ChunkStep::Next((search_pos + chunk_len - expr_len) as u64)
            } else {
                ChunkStep::Next(0)
            },
        },
{
    match found {
        Some(p) => ChunkStep::Found(search_pos + p as u64),
        None => {
            let end = search_pos + chunk_len;
            if end >= file_length {
                ChunkStep::NotFound
            } else {
                ChunkStep::Next(end.saturating_sub(expr_len as u64))
            }
        },
    }
}

/// Where and how much a backward search reads before `search_pos`: from a
/// chunk below it, as many bytes as the file has past the chunk's size, at
/// most a chunk.
pub fn backward_window(search_pos: u64, file_length: u64) -> (r: (u64, u64))
    ensures
        ({
            let size = if search_pos < SEARCH_CHUNK { search_pos as int } else { SEARCH_CHUNK as int };
            &&& r.0 == search_pos - size
            &&& r.1 == if file_length - size < SEARCH_CHUNK {
                if file_length >= size { file_length - size } else { 0 }
            } else {
                SEARCH_CHUNK as int
            }
        }),
{
    let size = if search_pos < SEARCH_CHUNK { search_pos } else { SEARCH_CHUNK };
    let start = search_pos - size;
    let rest = file_length.saturating_sub(size);
    (start, if rest < SEARCH_CHUNK { rest } else { SEARCH_CHUNK })
}

/// After a backward search through the chunk at `start` (`found`: where the
/// last match starts in it): the match, or the chunk below (ending the
/// expression's length past `start`, within the file), or, at the start of
/// the file, nothing found.
pub fn backward_step(start: u64, found: Option<usize>, expr_len: usize, file_length: u64) -> (r: ChunkStep)
    requires
        found matches Some(p) ==> start + p <= u64::MAX,
    ensures
        r == match found {
            Some(p) => ChunkStep::Found((start + p) as u64),
            None => if start == 0 {
                ChunkStep::NotFound
            } else if start + expr_len < file_length {
                ChunkStep::Next((start + expr_len) as u64)
            } else {
                ChunkStep::Next(file_length)
            },
        },
{
    match found {
        Some(p) => ChunkStep::Found(start + p as u64),
        None => {
            if start == 0 {
                ChunkStep::NotFound
            } else {
                let e = start.saturating_add(expr_len as u64);
                proof {
                    if start + expr_len > u64::MAX {
                        assert(start + expr_len >= file_length);
                    }
                }
                ChunkStep::Next(if e < file_length { e } else { file_length })
            }
        },
    }
}


/// The offset of the line holding `pos`.
pub open spec fn line_start_spec(pos: int, line_width: int) -> int {
    if line_width == 0 {
        pos
    } else {
        pos - pos % line_width
    }
}

/// What a new search leads to.
#[derive(Debug, Clone, PartialEq, Eq)]
pub enum SearchSetup {
    /// The search string was empty: no search.
    Cleared,
    /// The pattern was empty: no search, and nothing said.
    Empty,
    /// Search for the pattern now set.
    Start,
    /// The hexadecimal pattern is not valid; the warning to show.
    PatternError(String),
}

/// The place shown by the hex viewer and its search state.
#[derive(Debug)]
pub struct HexCursor {
    pub viewer_type: ViewerType,
    pub file_length: u64,
    pub line_width: usize,
    pub height: u16,
    pub offset: u64,
    pub search_pos: u64,
    pub expression: Option<Vec<u8>>,
    pub backwards: bool,
}

impl HexCursor {
    /// The sizes leave room for the arithmetic of scrolling.
    pub open spec fn wf(&self) -> bool {
        &&& self.file_length + 2 * self.line_width + 2 * self.height * self.line_width <= u64::MAX
        &&& self.search_pos <= self.file_length + self.line_width
        &&& self.offset <= self.file_length + self.line_width
    }

    /// The first offset shown when `pos` is to be shown.
    pub open spec fn shown_from(&self, pos: int) -> int {
        clamp_offset_spec(
            line_start_spec(pos, self.line_width as int),
            self.file_length as int,
            self.line_width as int,
            self.height as int,
        )
    }

    /// Shows the line holding `pos`, which becomes the search position.
    fn show(&mut self, pos: u64)
        requires
            old(self).wf(),
            pos + old(self).height * old(self).line_width <= u64::MAX,
        ensures
            final(self).wf(),
            final(self).offset == old(self).shown_from(pos as int),
            final(self).search_pos == final(self).offset,
            final(self).viewer_type == old(self).viewer_type,
            final(self).file_length == old(self).file_length,
            final(self).line_width == old(self).line_width,
            final(self).height == old(self).height,
            final(self).expression == old(self).expression,
            final(self).backwards == old(self).backwards,
    {
        let start = line_start(pos, self.line_width);
        assert(0 <= self.height * self.line_width) by (nonlinear_arith);
        self.offset = clamp_offset(start, self.file_length, self.line_width, self.height);
        proof {
            let fl = self.file_length as int;
            let w = self.line_width as int;
            if w > 0 {
                assert(fl % w < w && fl % w >= 0) by (nonlinear_arith)
                    requires
                        w > 0,
                ;
            }
            assert(last_line(fl, w) <= fl + w);
        }
        self.search_pos = self.offset;
    }

    /// Goes to the offset typed in the goto dialog (hexadecimal, with or
    /// without `0x`); the error message when it is not a number.
    pub fn goto(&mut self, text: &str) -> (r: Option<String>)
        requires
            old(self).wf(),
            parse_hex_u64_spec(strip_hex_prefix(text@)) matches Some(o) ==> o + old(self).height
                * old(self).line_width <= u64::MAX,
        ensures
            final(self).wf(),
            final(self).viewer_type == old(self).viewer_type,
            final(self).file_length == old(self).file_length,
            final(self).line_width == old(self).line_width,
            final(self).height == old(self).height,
            final(self).expression == old(self).expression,
            final(self).backwards == old(self).backwards,
            match parse_hex_u64_spec(strip_hex_prefix(text@)) {
                Some(o) => {
                    &&& r is None
                    &&& final(self).offset == old(self).shown_from(o as int)
                    &&& final(self).search_pos == final(self).offset
                },
                None => {
                    &&& r matches Some(m) && m@ == "Invalid number: "@ + text@
                    &&& final(self).offset == old(self).offset
                    &&& final(self).search_pos == old(self).search_pos
                },
            },
    {
        match parse_hex_offset(text) {
            Some(o) => {
                self.show(o);
                None
            },
            None => {
                let mut m = "Invalid number: ".to_string();
                crate::strings::push_str(&mut m, text);
                Some(m)
            },
        }
    }

    /// Shows `pos` when it was sent for a viewer of type `for_type` (the
    /// hex and dump viewers follow each other's position).
    pub fn follow(&mut self, pos: u64, for_type: ViewerType)
        requires
            old(self).wf(),
            pos + old(self).height * old(self).line_width <= u64::MAX,
        ensures
            final(self).wf(),
            final(self).viewer_type == old(self).viewer_type,
            final(self).file_length == old(self).file_length,
            final(self).line_width == old(self).line_width,
            final(self).height == old(self).height,
            final(self).expression == old(self).expression,
            if old(self).viewer_type == for_type {
                &&& final(self).offset == old(self).shown_from(pos as int)
                &&& final(self).search_pos == final(self).offset
            } else {
                &&& final(self).offset == old(self).offset
                &&& final(self).search_pos == old(self).search_pos
            },
    {
        if self.viewer_type == for_type {
            self.show(pos);
        }
    }

    /// Sets up a new search from the search dialog.
    pub fn set_search(&mut self, search_string: &str, hexadecimal: bool, backwards: bool) -> (r: SearchSetup)
        requires
            old(self).wf(),
        ensures
            final(self).wf(),
            final(self).offset == old(self).offset,
            final(self).search_pos == old(self).search_pos,
            final(self).viewer_type == old(self).viewer_type,
            final(self).file_length == old(self).file_length,
            final(self).line_width == old(self).line_width,
            final(self).height == old(self).height,
            if search_string@.len() == 0 {
                &&& r == SearchSetup::Cleared
                &&& final(self).expression is None
                &&& final(self).backwards == old(self).backwards
            } else {
                let pattern = if hexadecimal {
                    parse_hex_search_spec(search_string@)
                } else {
                    Some(encode_utf8(search_string@))
                };
                &&& final(self).backwards == backwards
                &&& match pattern {
                    Some(p) => if p.len() == 0 {
                        r == SearchSetup::Empty && final(self).expression is None
                    } else {
                        &&& r == SearchSetup::Start
                        &&& final(self).expression matches Some(e) && e@ == p
                    },
                    None => {
                        &&& r matches SearchSetup::PatternError(m) && m@ == "Hex pattern error: "@ + search_string@
                        &&& final(self).expression is None
                    },
                }
            },
    {
        if search_string.is_empty() {
            self.expression = None;
            return SearchSetup::Cleared;
        }
        self.backwards = backwards;
        let pattern = if hexadecimal {
            parse_hex_search(search_string)
        } else {
            let bytes = search_string.as_bytes();
            let mut v: Vec<u8> = Vec::new();
            let mut i: usize = 0;
            while i < bytes.len()
                invariant
                    i <= bytes@.len(),
                    v@ == bytes@.take(i as int),
                decreases bytes.len() - i,
            {
                v.push(bytes[i]);
                i += 1;
                assert(v@ =~= bytes@.take(i as int));
            }
            assert(bytes@.take(bytes@.len() as int) =~= bytes@);
            Some(v)
        };
        match pattern {
            Some(p) => {
                if p.len() == 0 {
                    self.expression = None;
                    SearchSetup::Empty
                } else {
                    self.expression = Some(p);
                    SearchSetup::Start
                }
            },
            None => {
                self.expression = None;
                let mut m = "Hex pattern error: ".to_string();
                crate::strings::push_str(&mut m, search_string);
                SearchSetup::PatternError(m)
            },
        }
    }

    /// A search found the pattern at `pos`: the view follows it.
    pub fn found(&mut self, pos: u64)
        requires
            old(self).wf(),
            pos <= old(self).file_length,
        ensures
            final(self).wf(),
            final(self).search_pos == pos,
            final(self).offset == old(self).shown_from(pos as int),
            final(self).viewer_type == old(self).viewer_type,
            final(self).file_length == old(self).file_length,
            final(self).line_width == old(self).line_width,
            final(self).height == old(self).height,
            final(self).expression == old(self).expression,
            final(self).backwards == old(self).backwards,
    {
        assert(0 <= self.height * self.line_width && 2 * self.height * self.line_width == 2 * (self.height
            * self.line_width)) by (nonlinear_arith);
        self.show(pos);
        self.search_pos = pos;
    }

    /// The search for the next match starts on the line after the last one.
    pub fn prepare_search_next(&mut self)
        requires
            old(self).wf(),
        ensures
            final(self).wf(),
            final(self).search_pos == ({
                let s = line_start_spec(old(self).search_pos as int, old(self).line_width as int);
                if s + old(self).line_width < old(self).file_length {
                    s + old(self).line_width
                } else {
                    old(self).file_length as int
                }
            }),
            final(self).offset == old(self).offset,
            final(self).expression == old(self).expression,
            final(self).file_length == old(self).file_length,
            final(self).line_width == old(self).line_width,
            final(self).height == old(self).height,
    {
        self.search_pos = search_next_start(self.search_pos, self.line_width, self.file_length);
    }

    /// The search for the previous match starts at the start of the line
    /// of the last one.
    pub fn prepare_search_prev(&mut self)
        requires
            old(self).wf(),
        ensures
            final(self).wf(),
            final(self).search_pos == line_start_spec(old(self).search_pos as int, old(self).line_width as int),
            final(self).offset == old(self).offset,
            final(self).expression == old(self).expression,
            final(self).file_length == old(self).file_length,
            final(self).line_width == old(self).line_width,
            final(self).height == old(self).height,
    {
        self.search_pos = line_start(self.search_pos, self.line_width);
    }

    /// Handles a key: the movements move the view (and the search position
    /// with it); the other keys ask the caller to switch between hex and
    /// dump (at the same offset), open the goto or search dialog, search
    /// again in either direction, or forget the search.
    pub fn handle_key(&mut self, key: HexKey) -> (r: HexAction)
        requires
            old(self).wf(),
        ensures
            final(self).wf(),
            final(self).viewer_type == old(self).viewer_type,
            final(self).file_length == old(self).file_length,
            final(self).line_width == old(self).line_width,
            final(self).height == old(self).height,
            final(self).backwards == old(self).backwards,
            match key {
                HexKey::Move(mv) => {
                    &&& r == HexAction::Nothing
                    &&& final(self).offset == clamp_offset_spec(
                        move_target(
                            mv,
                            old(self).offset as int,
                            old(self).file_length as int,
                            old(self).line_width as int,
                            old(self).height as int,
                        ),
                        old(self).file_length as int,
                        old(self).line_width as int,
                        old(self).height as int,
                    )
                    &&& final(self).search_pos == final(self).offset
                    &&& final(self).expression == old(self).expression
                },
                HexKey::ToggleHex => {
                    &&& r == HexAction::ToggleHex(old(self).offset, old(self).viewer_type == ViewerType::Dump)
                    &&& final(self).offset == old(self).offset
                    &&& final(self).search_pos == old(self).search_pos
                    &&& final(self).expression == old(self).expression
                },
                HexKey::Goto => r == HexAction::GotoDialog && final(self).offset == old(self).offset
                    && final(self).search_pos == old(self).search_pos && final(self).expression == old(
                    self,
                ).expression,
                HexKey::Search(backwards) => r == HexAction::SearchDialog(
                    old(self).viewer_type == ViewerType::Hex,
                    backwards,
                ) && final(self).offset == old(self).offset && final(self).search_pos == old(self).search_pos
                    && final(self).expression == old(self).expression,
                HexKey::Again(reverse) => {
                    &&& final(self).offset == old(self).offset
                    &&& final(self).search_pos == old(self).search_pos
                    &&& final(self).expression == old(self).expression
                    &&& r == if old(self).expression is None {
                        HexAction::Nothing
                    } else if old(self).backwards != reverse {
                        HexAction::SearchPrev
                    } else {
                        HexAction::SearchNext
                    }
                },
                HexKey::Esc => r == HexAction::Nothing && final(self).expression is None && final(self).offset
                    == old(self).offset && final(self).search_pos == old(self).search_pos,
                HexKey::Other => r == HexAction::Unhandled && final(self).offset == old(self).offset
                    && final(self).search_pos == old(self).search_pos && final(self).expression == old(
                    self,
                ).expression,
            },
    {
        match key {
            HexKey::Move(mv) => {
                assert(0 <= self.height * self.line_width && 2 * self.height * self.line_width == 2 * (
                self.height * self.line_width)) by (nonlinear_arith);
                self.offset = move_offset(mv, self.offset, self.file_length, self.line_width, self.height);
                proof {
                    let fl = self.file_length as int;
                    let w = self.line_width as int;
                    if w > 0 {
                        assert(fl % w < w && fl % w >= 0) by (nonlinear_arith)
                            requires
                                w > 0,
                        ;
                    }
                    assert(last_line(fl, w) <= fl + w);
                }
                self.search_pos = self.offset;
                HexAction::Nothing
            },
            HexKey::ToggleHex => HexAction::ToggleHex(self.offset, self.viewer_type == ViewerType::Dump),
            HexKey::Goto => HexAction::GotoDialog,
            HexKey::Search(backwards) => HexAction::SearchDialog(self.viewer_type == ViewerType::Hex, backwards),
            HexKey::Again(reverse) => {
                if self.expression.is_none() {
                    HexAction::Nothing
                } else if self.backwards != reverse {
                    HexAction::SearchPrev
                } else {
                    HexAction::SearchNext
                }
            },
            HexKey::Esc => {
                self.expression = None;
                HexAction::Nothing
            },
            HexKey::Other => HexAction::Unhandled,
        }
    }
}

/// The keys of the hex viewer.
#[derive(Debug, Clone, Copy, PartialEq, Eq, Structural)]
pub enum HexKey {
    Move(HexMove),
    /// `h` or F4.
    ToggleHex,
    /// `:` or F5.
    Goto,
    /// `/`, `f` or F7 (forwards) and `?` or `F` (backwards).
    Search(bool),
    /// `n` (false) and `N` (true, the other direction).
    Again(bool),
    Esc,
    Other,
}

/// What the hex viewer asks of the caller after a key.
#[derive(Debug, Clone, Copy, PartialEq, Eq, Structural)]
pub enum HexAction {
    Nothing,
    Unhandled,
    /// Switch viewers, showing this offset in the other one; to the hex
    /// viewer when `.1`.
    ToggleHex(u64, bool),
    GotoDialog,
    /// Open the search dialog: hexadecimal when `.0`, backwards when `.1`.
    SearchDialog(bool, bool),
    SearchNext,
    SearchPrev,
}

/// A forward search through `data` a chunk at a time from `sp`, as the
/// search with `forward_chunk_len`, `find_first` and `forward_step` goes:
/// a match in the chunk is the answer; otherwise the search goes on from
/// the next chunk, which overlaps this one by the expression's length,
/// unless the chunk reached the end of the data.
pub open spec fn chunked_search(data: Seq<u8>, e: Seq<u8>, sp: int) -> Option<int>
    decreases data.len() - sp,
{
    if sp < 0 || sp > data.len() {
        None
    } else {
        let n = forward_chunk_len_spec(sp, data.len() as int);
        match first_match_from(data.subrange(sp, sp + n), e, 0) {
            Some(p) => Some(sp + p),
            None => if sp + n >= data.len() {
                None
            } else {
                let next = if sp + n >= e.len() { sp + n - e.len() } else { 0 };
                if sp < next {
                    chunked_search(data, e, next)
                } else {
                    None
                }
            },
        }
    }
}

proof fn lemma_first_match_unique(s: Seq<u8>, e: Seq<u8>, q: int, x: int)
    requires
        e.len() > 0,
        0 <= q <= x,
        occurs_at(s, e, x),
        forall|r: int| q <= r < x ==> !occurs_at(s, e, r),
    ensures
        first_match_from(s, e, q) == Some(x),
{
    lemma_first_match_spec(s, e, q);
}

proof fn lemma_first_match_none(s: Seq<u8>, e: Seq<u8>, q: int)
    requires
        e.len() > 0,
        0 <= q,
        forall|r: int| r >= q ==> !occurs_at(s, e, r),
    ensures
        first_match_from(s, e, q) is None,
{
    lemma_first_match_spec(s, e, q);
}

proof fn lemma_first_match_skip(s: Seq<u8>, e: Seq<u8>, q: int, q2: int)
    requires
        e.len() > 0,
        0 <= q <= q2,
        forall|r: int| q <= r < q2 ==> !occurs_at(s, e, r),
    ensures
        first_match_from(s, e, q) == first_match_from(s, e, q2),
{
    lemma_first_match_spec(s, e, q);
    lemma_first_match_spec(s, e, q2);
    match first_match_from(s, e, q2) {
        Some(x) => lemma_first_match_unique(s, e, q, x),
        None => lemma_first_match_none(s, e, q),
    }
}

proof fn lemma_chunk_occurs(data: Seq<u8>, e: Seq<u8>, sp: int, n: int, p: int)
    requires
        0 <= sp,
        0 <= n,
        sp + n <= data.len(),
        0 <= p,
    ensures
        occurs_at(data.subrange(sp, sp + n), e, p) <==> (occurs_at(data, e, sp + p) && p + e.len() <= n),
{
    let sub = data.subrange(sp, sp + n);
    if p + e.len() <= n {
        assert(sub.subrange(p, p + e.len()) =~= data.subrange(sp + p, sp + p + e.len()));
    }
}

/// The forward search through a file a chunk at a time finds the first
/// match at or after where it starts, when the expression is shorter than
/// a chunk.
pub proof fn law_chunked_search_finds_first_match(data: Seq<u8>, e: Seq<u8>, sp: int)
    requires
        0 < e.len() < SEARCH_CHUNK,
        0 <= sp <= data.len(),
    ensures
        chunked_search(data, e, sp) == first_match_from(data, e, sp),
    decreases data.len() - sp,
{
    let len = data.len() as int;
    let n = forward_chunk_len_spec(sp, len);
    let sub = data.subrange(sp, sp + n);
    assert(0 <= n && sp + n <= len);
    lemma_first_match_spec(sub, e, 0);
    match first_match_from(sub, e, 0) {
        Some(p) => {
            lemma_chunk_occurs(data, e, sp, n, p);
            assert forall|r: int| sp <= r < sp + p implies !occurs_at(data, e, r) by {
                lemma_chunk_occurs(data, e, sp, n, r - sp);
            }
            lemma_first_match_unique(data, e, sp, sp + p);
        },
        None => {
            if sp + n >= len {
                assert forall|r: int| r >= sp implies !occurs_at(data, e, r) by {
                    lemma_chunk_occurs(data, e, sp, n, r - sp);
                }
                lemma_first_match_none(data, e, sp);
            } else {
                let next = sp + n - e.len();
                assert(n == SEARCH_CHUNK);
                assert forall|r: int| sp <= r < next implies !occurs_at(data, e, r) by {
                    lemma_chunk_occurs(data, e, sp, n, r - sp);
                }
                lemma_first_match_skip(data, e, sp, next);
                law_chunked_search_finds_first_match(data, e, next);
            }
        },
    }
}

} // verus!
