//! `$name` / `${name}` template substitution, in the manner of Python's
//! `string.Template.safe_substitute`, with a configurable delimiter.

use vstd::prelude::*;
use crate::strings::{push_char, push_str};

verus! {

/// Where the scanner stands with respect to an identifier.
#[derive(Debug, Clone, Copy, PartialEq, Eq, Structural)]
pub enum IdentifierState {
    /// Plain text.
    Plain,
    /// After the delimiter: `$name`.
    Simple,
    /// After the delimiter and an opening brace: `${name}`.
    Braced,
}

/// The characters that make up an identifier: ASCII letters, digits and `_`.
pub open spec fn is_id_char(c: char) -> bool {
    ('0' <= c && c <= '9') || ('A' <= c && c <= 'Z') || c == '_' || ('a' <= c && c <= 'z')
}

/// The replacement of the first mapping entry whose identifier is `key`.
pub open spec fn lookup(mapping: Seq<(Seq<char>, Seq<char>)>, key: Seq<char>) -> Option<Seq<char>>
    decreases mapping.len(),
{
    if mapping.len() == 0 {
        None
    } else if mapping[0].0 == key {
        Some(mapping[0].1)
    } else {
        lookup(mapping.drop_first(), key)
    }
}

/// The scanner's state: the output so far, the identifier being read, and
/// where the scanner stands.
pub struct ScanState {
    pub result: Seq<char>,
    pub tmp: Seq<char>,
    pub mode: IdentifierState,
}

pub open spec fn init_state() -> ScanState {
    ScanState { result: Seq::empty(), tmp: Seq::empty(), mode: IdentifierState::Plain }
}

/// What the scanner does on one character.
pub open spec fn step(
    st: ScanState,
    c: char,
    mapping: Seq<(Seq<char>, Seq<char>)>,
    delim: char,
) -> ScanState {
    if st.mode == IdentifierState::Plain {
        if c == delim {
            ScanState { mode: IdentifierState::Simple, ..st }
        } else {
            ScanState { result: st.result.push(c), ..st }
        }
    } else if st.mode == IdentifierState::Simple && c == delim && st.tmp.len() == 0 {
        ScanState { result: st.result.push(delim), mode: IdentifierState::Plain, ..st }
    } else if st.mode == IdentifierState::Simple && c == '{' && st.tmp.len() == 0 {
        ScanState { mode: IdentifierState::Braced, ..st }
    } else if is_id_char(c) {
        ScanState { tmp: st.tmp.push(c), ..st }
    } else {
        let found: Option<Seq<char>> = if st.mode == IdentifierState::Simple || c == '}' {
            lookup(mapping, st.tmp)
        } else {
            None
        };
        let res1 = match found {
            Some(r) => st.result + r,
            None => st.result,
        };
        let replaced = found is Some;
        if st.mode == IdentifierState::Simple && c == delim {
            ScanState {
                result: if replaced { res1 } else { res1.push(delim) + st.tmp },
                tmp: Seq::empty(),
                mode: IdentifierState::Simple,
            }
        } else if c == delim {
            ScanState {
                result: if replaced { res1 } else { res1.push(delim).push('{') + st.tmp },
                tmp: Seq::empty(),
                mode: IdentifierState::Simple,
            }
        } else if st.mode == IdentifierState::Simple {
            ScanState {
                result: if replaced { res1.push(c) } else { (res1.push(delim) + st.tmp).push(c) },
                tmp: Seq::empty(),
                mode: IdentifierState::Plain,
            }
        } else {
            ScanState {
                result: if replaced {
                    if c != '}' { res1.push(c) } else { res1 }
                } else {
                    (res1.push(delim).push('{') + st.tmp).push(c)
                },
                tmp: Seq::empty(),
                mode: IdentifierState::Plain,
            }
        }
    }
}

/// The scanner's state after reading all of `s`.
pub open spec fn scan(s: Seq<char>, mapping: Seq<(Seq<char>, Seq<char>)>, delim: char) -> ScanState
    decreases s.len(),
{
    if s.len() == 0 {
        init_state()
    } else {
        step(scan(s.drop_last(), mapping, delim), s.last(), mapping, delim)
    }
}

/// What is output at the end of the template for an identifier still open.
pub open spec fn finish(st: ScanState, mapping: Seq<(Seq<char>, Seq<char>)>, delim: char) -> Seq<char> {
    if st.mode == IdentifierState::Simple {
        match lookup(mapping, st.tmp) {
            Some(r) => st.result + r,
            None => st.result.push(delim) + st.tmp,
        }
    } else if st.mode == IdentifierState::Braced {
        st.result.push(delim).push('{') + st.tmp
    } else {
        st.result
    }
}

/// The result of substituting `mapping` into `template`.
pub open spec fn substitute_spec(
    template: Seq<char>,
    mapping: Seq<(Seq<char>, Seq<char>)>,
    delim: char,
) -> Seq<char> {
    finish(scan(template, mapping, delim), mapping, delim)
}

/// The mapping's identifiers and replacements as character sequences.
pub open spec fn mapping_view(mapping: Seq<(String, String)>) -> Seq<(Seq<char>, Seq<char>)> {
    mapping.map_values(|p: (String, String)| (p.0@, p.1@))
}

proof fn lemma_scan_plain(s: Seq<char>, mapping: Seq<(Seq<char>, Seq<char>)>, delim: char)
    requires
        !s.contains(delim),
    ensures
        scan(s, mapping, delim) == (ScanState {
            result: s,
            tmp: Seq::empty(),
            mode: IdentifierState::Plain,
        }),
    decreases s.len(),
{
    if s.len() > 0 {
        assert(!s.drop_last().contains(delim)) by {
            if s.drop_last().contains(delim) {
                let k = choose|k: int| 0 <= k < s.drop_last().len() && s.drop_last()[k] == delim;
                assert(s[k] == delim);
            }
        }
        lemma_scan_plain(s.drop_last(), mapping, delim);
        assert(s.last() != delim) by {
            assert(s[s.len() - 1] == s.last());
        }
        assert(s.drop_last().push(s.last()) =~= s);
        assert(scan(s, mapping, delim).result =~= s);
    } else {
        assert(s =~= Seq::<char>::empty());
    }
}

/// A template in which the delimiter does not occur comes back unchanged,
/// whatever the mapping.
pub proof fn law_substitute_without_delimiter(
    template: Seq<char>,
    mapping: Seq<(Seq<char>, Seq<char>)>,
    delim: char,
)
    requires
        !template.contains(delim),
    ensures
        substitute_spec(template, mapping, delim) == template,
{
    lemma_scan_plain(template, mapping, delim);
}

/// `s` with every delimiter doubled.
pub open spec fn doubled(s: Seq<char>, delim: char) -> Seq<char>
    decreases s.len(),
{
    if s.len() == 0 {
        Seq::empty()
    } else {
        let r = doubled(s.drop_last(), delim);
        if s.last() == delim {
            r + seq![delim, delim]
        } else {
            r.push(s.last())
        }
    }
}

proof fn lemma_scan_doubled(s: Seq<char>, mapping: Seq<(Seq<char>, Seq<char>)>, delim: char)
    ensures
        scan(doubled(s, delim), mapping, delim) == (ScanState {
            result: s,
            tmp: Seq::empty(),
            mode: IdentifierState::Plain,
        }),
    decreases s.len(),
{
    if s.len() > 0 {
        lemma_scan_doubled(s.drop_last(), mapping, delim);
        let x = doubled(s.drop_last(), delim);
        if s.last() == delim {
            let y = x + seq![delim, delim];
            assert(y.drop_last() =~= x.push(delim));
            assert(y.last() == delim);
            assert(x.push(delim).drop_last() =~= x);
            assert(x.push(delim).last() == delim);
            let mid = scan(x.push(delim), mapping, delim);
            assert(mid == (ScanState { result: s.drop_last(), tmp: Seq::empty(), mode: IdentifierState::Simple }));
            assert(scan(y, mapping, delim) == step(mid, delim, mapping, delim));
            assert(s.drop_last().push(delim) =~= s);
            assert(doubled(s, delim) == y);
        } else {
            let y = x.push(s.last());
            assert(y.drop_last() =~= x);
            assert(y.last() == s.last());
            assert(s.drop_last().push(s.last()) =~= s);
            assert(doubled(s, delim) == y);
            assert(scan(y, mapping, delim) == step(scan(x, mapping, delim), s.last(), mapping, delim));
        }
        let fin = scan(doubled(s, delim), mapping, delim);
        assert(fin.result =~= s);
        assert(fin.tmp =~= Seq::<char>::empty());
        assert(fin.mode == IdentifierState::Plain);
    } else {
        assert(doubled(s, delim) =~= Seq::<char>::empty());
        assert(s =~= Seq::<char>::empty());
    }
}

/// Doubling every delimiter escapes the text completely: substituting into
/// it gives the text back, whatever the mapping.
pub proof fn law_substitute_doubled_delimiters(
    s: Seq<char>,
    mapping: Seq<(Seq<char>, Seq<char>)>,
    delim: char,
)
    ensures
        substitute_spec(doubled(s, delim), mapping, delim) == s,
{
    lemma_scan_doubled(s, mapping, delim);
}

fn is_identifier_char(c: char) -> (r: bool)
    ensures
        r == is_id_char(c),
{
    ('0' <= c && c <= '9') || ('A' <= c && c <= 'Z') || c == '_' || ('a' <= c && c <= 'z')
}

proof fn lemma_lookup_skip(m: Seq<(Seq<char>, Seq<char>)>, key: Seq<char>, i: int)
    requires
        0 <= i < m.len(),
        m[i].0 != key,
    ensures
        lookup(m.skip(i), key) == lookup(m.skip(i + 1), key),
{
    assert(m.skip(i).drop_first() =~= m.skip(i + 1));
}

fn find_replacement(mapping: &[(String, String)], key: &String) -> (res: Option<usize>)
    ensures
        match res {
            Some(i) => i < mapping@.len() && lookup(mapping_view(mapping@), key@) == Some(
                mapping@[i as int].1@,
            ),
            None => lookup(mapping_view(mapping@), key@) is None,
        },
{
    let ghost m = mapping_view(mapping@);
    let mut i: usize = 0;
    assert(m.skip(0) =~= m);
    while i < mapping.len()
        invariant
            i <= mapping@.len(),
            m == mapping_view(mapping@),
            lookup(m, key@) == lookup(m.skip(i as int), key@),
        decreases mapping.len() - i,
    {
        if mapping[i].0 == *key {
            assert(m.skip(i as int)[0] == m[i as int]);
            return Some(i);
        }
        proof {
            lemma_lookup_skip(m, key@, i as int);
        }
        i += 1;
    }
    assert(m.skip(i as int).len() == 0);
    None
}

/// Substitutes `$identifier` and `${identifier}` in `template` with the
/// replacement of the first matching entry of `mapping`.  Unknown identifiers
/// are left as they are, and a doubled delimiter stands for one delimiter.
pub fn substitute(template: &str, mapping: &[(String, String)], delimiter: char) -> (res: String)
    ensures
        res@ == substitute_spec(template@, mapping_view(mapping@), delimiter),
{
    let ghost m = mapping_view(mapping@);
    let mut result = String::new();
    let mut tmp = String::new();
    let mut identifier_state = IdentifierState::Plain;

    let chars = crate::strings::chars_of(template);
    let mut i: usize = 0;
    while i < chars.len()
        invariant
            i <= chars@.len(),
            chars@ == template@,
            m == mapping_view(mapping@),
            scan(chars@.take(i as int), m, delimiter) == (ScanState {
                result: result@,
                tmp: tmp@,
                mode: identifier_state,
            }),
        decreases chars.len() - i,
    {
        let c = chars[i];
        proof {
            assert(chars@.take(i + 1).drop_last() =~= chars@.take(i as int));
        }
        let is_none = identifier_state == IdentifierState::Plain;
        let is_simple = identifier_state == IdentifierState::Simple;
        let tmp_empty = tmp.as_str().unicode_len() == 0;
        if is_none && c == delimiter {
            identifier_state = IdentifierState::Simple;
        } else if is_none {
            push_char(&mut result, c);
        } else if is_simple && c == delimiter && tmp_empty {
            push_char(&mut result, delimiter);
            identifier_state = IdentifierState::Plain;
        } else if is_simple && c == '{' && tmp_empty {
            identifier_state = IdentifierState::Braced;
        } else if is_identifier_char(c) {
            push_char(&mut tmp, c);
        } else {
            let mut replaced = false;
            if is_simple || c == '}' {
                match find_replacement(mapping, &tmp) {
                    Some(k) => {
                        push_str(&mut result, mapping[k].1.as_str());
                        replaced = true;
                    },
                    None => {},
                }
            }
            if is_simple && c == delimiter {
                if !replaced {
                    push_char(&mut result, delimiter);
                    push_str(&mut result, tmp.as_str());
                }
            } else if c == delimiter {
                if !replaced {
                    push_char(&mut result, delimiter);
                    push_char(&mut result, '{');
                    push_str(&mut result, tmp.as_str());
                }
                identifier_state = IdentifierState::Simple;
            } else if is_simple {
                if replaced {
                    push_char(&mut result, c);
                } else {
                    push_char(&mut result, delimiter);
                    push_str(&mut result, tmp.as_str());
                    push_char(&mut result, c);
                }
                identifier_state = IdentifierState::Plain;
            } else {
                if replaced {
                    if c != '}' {
                        push_char(&mut result, c);
                    }
                } else {
                    push_char(&mut result, delimiter);
                    push_char(&mut result, '{');
                    push_str(&mut result, tmp.as_str());
                    push_char(&mut result, c);
                }
                identifier_state = IdentifierState::Plain;
            }
            tmp = String::new();
        }
        i += 1;
        proof {
            let prev = scan(chars@.take(i - 1), m, delimiter);
            assert(scan(chars@.take(i as int), m, delimiter) == step(prev, c, m, delimiter));
            let nxt = step(prev, c, m, delimiter);
            assert(nxt.result =~= result@);
            assert(nxt.tmp =~= tmp@);
        }
    }
    assert(chars@.take(chars@.len() as int) =~= chars@);

    if identifier_state != IdentifierState::Plain {
        let mut replaced = false;
        if identifier_state == IdentifierState::Simple {
            match find_replacement(mapping, &tmp) {
                Some(k) => {
                    push_str(&mut result, mapping[k].1.as_str());
                    replaced = true;
                },
                None => {},
            }
            if !replaced {
                push_char(&mut result, delimiter);
                push_str(&mut result, tmp.as_str());
            }
        } else {
            push_char(&mut result, delimiter);
            push_char(&mut result, '{');
            push_str(&mut result, tmp.as_str());
        }
    }
    assert(result@ =~= substitute_spec(template@, m, delimiter));
    result
}

} // verus!
