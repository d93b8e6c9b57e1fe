//! File name helpers: the stem and suffix of a file name (treating
//! `.tar.*` as one suffix), the sort key of a name, and the rendering of a
//! duration in seconds.

use vstd::prelude::*;
use crate::strings::{chars_of, push_char, str_eq, string_from_chars};
use unicode_normalization::UnicodeNormalization;

verus! {

broadcast use vstd::string::group_string_axioms;

/// `str::to_lowercase`: the string with every character mapped to its Unicode
/// lowercase form.
pub uninterp spec fn str_to_lowercase(s: Seq<char>) -> Seq<char>;

/// `caseless::default_case_fold_str`: Unicode default case folding.
pub uninterp spec fn case_fold(s: Seq<char>) -> Seq<char>;

/// `UnicodeNormalization::nfkd`: Unicode compatibility decomposition.
pub uninterp spec fn nfkd(s: Seq<char>) -> Seq<char>;

/// Trusted: calls `str::to_lowercase`; the result is the named `str_to_lowercase`.
#[verifier::external_body]
fn to_lowercase(s: &str) -> (r: String)
    ensures
        r@ == str_to_lowercase(s@),
{
    s.to_lowercase()
}

/// Trusted: calls `caseless::default_case_fold_str`; the result is the named
/// `case_fold`.
#[verifier::external_body]
fn default_case_fold(s: &str) -> (r: String)
    ensures
        r@ == case_fold(s@),
{
    caseless::default_case_fold_str(s)
}

/// Trusted: collects `unicode_normalization::UnicodeNormalization::nfkd`;
/// the result is the named `nfkd`.
#[verifier::external_body]
fn nfkd_string(s: &str) -> (r: String)
    ensures
        r@ == nfkd(s@),
{
    s.nfkd().collect()
}

/// The key by which names are compared when sorting and filtering: the name
/// case folded, then decomposed.
pub fn natsort_key(s: &str) -> (r: String)
    ensures
        r@ == nfkd(case_fold(s@)),
{
    let folded = default_case_fold(s);
    nfkd_string(folded.as_str())
}

/// The positions of the dots in `s`, in increasing order.
pub open spec fn dots(s: Seq<char>) -> Seq<int>
    decreases s.len(),
{
    if s.len() == 0 {
        Seq::empty()
    } else if s.last() == '.' {
        dots(s.drop_last()).push(s.len() - 1)
    } else {
        dots(s.drop_last())
    }
}

/// The number of parts a split on the dots gives that a name must exceed to
/// have a suffix: a leading dot (a hidden file) does not start a suffix.
pub open spec fn min_parts(s: Seq<char>) -> int {
    if s.len() > 0 && s[0] == '.' { 2 } else { 1 }
}

/// The name has a `.tar.*` double suffix: at least one part more than the
/// minimum before it, and its second to last part is `tar` in any case.
pub open spec fn has_tar_suffix(s: Seq<char>) -> bool {
    let d = dots(s);
    &&& d.len() + 1 > min_parts(s) + 1
    &&& str_to_lowercase(s.subrange(d[d.len() - 2] + 1, d[d.len() - 1])) == "tar"@
}

/// The name without its suffix (`archive.tar.gz` gives `archive`).
pub open spec fn tar_stem_spec(s: Seq<char>) -> Seq<char> {
    let d = dots(s);
    if has_tar_suffix(s) {
        s.take(d[d.len() - 2])
    } else if d.len() + 1 > min_parts(s) {
        s.take(d[d.len() - 1])
    } else {
        s
    }
}

/// The suffix of the name, with its dot (`archive.tar.gz` gives `.tar.gz`).
pub open spec fn tar_suffix_spec(s: Seq<char>) -> Seq<char> {
    let d = dots(s);
    if has_tar_suffix(s) {
        s.skip(d[d.len() - 2])
    } else if d.len() + 1 > min_parts(s) {
        s.skip(d[d.len() - 1])
    } else {
        Seq::empty()
    }
}

proof fn lemma_dots(s: Seq<char>)
    ensures
        forall|i: int| 0 <= i < dots(s).len() ==> 0 <= #[trigger] dots(s)[i] < s.len() && s[dots(s)[i]]
            == '.',
        forall|i: int, j: int| 0 <= i < j < dots(s).len() ==> dots(s)[i] < dots(s)[j],
    decreases s.len(),
{
    if s.len() > 0 {
        let t = s.drop_last();
        lemma_dots(t);
        let dt = dots(t);
        let ds = dots(s);
        assert forall|i: int| 0 <= i < ds.len() implies 0 <= #[trigger] ds[i] < s.len() && s[ds[i]]
            == '.' by {
            if i < dt.len() {
                assert(ds[i] == dt[i]);
                assert(s[dt[i]] == t[dt[i]]);
            }
        }
        assert forall|i: int, j: int| 0 <= i < j < ds.len() implies ds[i] < ds[j] by {
            if j < dt.len() {
                assert(ds[i] == dt[i] && ds[j] == dt[j]);
            } else {
                assert(ds[i] == dt[i]);
                assert(dt[i] < t.len());
            }
        }
    }
}

/// The positions of the dots of `v`.
fn dot_positions(v: &Vec<char>) -> (r: Vec<usize>)
    ensures
        r@.map_values(|i: usize| i as int) == dots(v@),
        forall|i: int| 0 <= i < r@.len() ==> r@[i] < v@.len(),
{
    let mut r: Vec<usize> = Vec::new();
    let mut i: usize = 0;
    assert(v@.take(0) =~= Seq::<char>::empty());
    while i < v.len()
        invariant
            i <= v@.len(),
            r@.map_values(|k: usize| k as int) =~= dots(v@.take(i as int)),
            forall|k: int| 0 <= k < r@.len() ==> r@[k] < i,
        decreases v.len() - i,
    {
        proof {
            assert(v@.take(i + 1).drop_last() =~= v@.take(i as int));
            assert(v@.take(i + 1).last() == v@[i as int]);
        }
        if v[i] == '.' {
            let ghost before = r@;
            r.push(i);
            assert(r@.map_values(|k: usize| k as int) =~= before.map_values(|k: usize| k as int).push(
                i as int,
            ));
        }
        i += 1;
    }
    assert(v@.take(i as int) =~= v@);
    r
}

fn sub_chars(v: &Vec<char>, from: usize, to: usize) -> (r: String)
    requires
        from <= to <= v@.len(),
    ensures
        r@ == v@.subrange(from as int, to as int),
{
    let mut r = String::new();
    let mut i = from;
    while i < to
        invariant
            from <= i <= to,
            to <= v@.len(),
            r@ == v@.subrange(from as int, i as int),
        decreases to - i,
    {
        push_char(&mut r, v[i]);
        assert(v@.subrange(from as int, i + 1) =~= v@.subrange(from as int, i as int).push(
            v@[i as int],
        ));
        i += 1;
    }
    r
}

/// Where the stem ends: the dot that starts the suffix, if there is a suffix.
fn suffix_start(v: &Vec<char>) -> (r: Option<usize>)
    ensures
        ({
            let d = dots(v@);
            match r {
                Some(p) => {
                    &&& has_tar_suffix(v@) ==> p as int == d[d.len() - 2]
                    &&& !has_tar_suffix(v@) ==> d.len() + 1 > min_parts(v@) && p as int == d[d.len()
                        - 1]
                    &&& p < v@.len()
                },
                None => !has_tar_suffix(v@) && d.len() + 1 <= min_parts(v@),
            }
        }),
{
    proof {
        reveal_strlit("tar");
    }
    let d = dot_positions(v);
    proof {
        lemma_dots(v@);
        assert(d@.len() == dots(v@).len());
        assert forall|i: int| 0 <= i < d@.len() implies d@[i] as int == dots(v@)[i] by {
            assert(d@.map_values(|k: usize| k as int)[i] == d@[i] as int);
        }
    }
    let min: usize = if v.len() > 0 && v[0] == '.' { 2 } else { 1 };
    let n = d.len();
    if n > min {
        let start = d[n - 2] + 1;
        let end = d[n - 1];
        proof {
            assert(dots(v@)[n - 2] < dots(v@)[n - 1]);
        }
        let part = sub_chars(v, start, end);
        let lower = to_lowercase(part.as_str());
        if str_eq(lower.as_str(), "tar") {
            return Some(d[n - 2]);
        }
    }
    if n >= min {
        Some(d[n - 1])
    } else {
        None
    }
}

/// The file name without its suffix; a `.tar.*` double suffix counts as one.
pub fn tar_stem(file: &str) -> (r: String)
    ensures
        r@ == tar_stem_spec(file@),
{
    let v = chars_of(file);
    match suffix_start(&v) {
        Some(p) => sub_chars(&v, 0, p),
        None => string_from_chars(&v),
    }
}

/// The suffix of the file name with its leading dot; a `.tar.*` double
/// suffix counts as one.  Empty when the name has no suffix.
pub fn tar_suffix(file: &str) -> (r: String)
    ensures
        r@ == tar_suffix_spec(file@),
{
    let v = chars_of(file);
    match suffix_start(&v) {
        Some(p) => sub_chars(&v, p, v.len()),
        None => String::new(),
    }
}

/// The stem followed by the suffix is the name again.
pub proof fn law_stem_suffix_split(s: Seq<char>)
    ensures
        tar_stem_spec(s) + tar_suffix_spec(s) == s,
{
    lemma_dots(s);
    let d = dots(s);
    if has_tar_suffix(s) {
        assert(s.take(d[d.len() - 2]) + s.skip(d[d.len() - 2]) =~= s);
    } else if d.len() + 1 > min_parts(s) {
        assert(s.take(d[d.len() - 1]) + s.skip(d[d.len() - 1]) =~= s);
    } else {
        assert(s + Seq::<char>::empty() =~= s);
    }
}

/// The decimal digit of `d` (below ten).
pub open spec fn digit(d: int) -> char {
    ((d + 48) as u8) as char
}

/// The decimal representation of `n`, without leading zeros.
pub open spec fn decimal(n: nat) -> Seq<char>
    decreases n,
{
    if n < 10 {
        seq![digit(n as int)]
    } else {
        decimal(n / 10).push(digit((n % 10) as int))
    }
}

/// `n` (below one hundred) written with two digits.
pub open spec fn two_digits(n: nat) -> Seq<char> {
    seq![digit((n / 10) as int), digit((n % 10) as int)]
}

/// A duration as `HH:MM:SS`, preceded by the number of days and `d` when it
/// is a day or more.
pub open spec fn format_seconds_spec(t: nat) -> Seq<char> {
    let hms = two_digits((t / 3600) % 24) + seq![':'] + two_digits((t / 60) % 60) + seq![':']
        + two_digits(t % 60);
    if t / 86400 == 0 {
        hms
    } else {
        decimal(t / 86400) + seq!['d'] + hms
    }
}

fn digit_char(d: u64) -> (c: char)
    requires
        d < 10,
    ensures
        c == digit(d as int),
{
    ((d + 48) as u8) as char
}

fn push_decimal(s: &mut String, n: u64)
    ensures
        final(s)@ == old(s)@ + decimal(n as nat),
    decreases n,
{
    if n < 10 {
        push_char(s, digit_char(n));
        assert(old(s)@.push(digit(n as int)) =~= old(s)@ + decimal(n as nat));
    } else {
        push_decimal(s, n / 10);
        push_char(s, digit_char(n % 10));
        assert(old(s)@ + decimal((n / 10) as nat) + seq![digit((n % 10) as int)] =~= old(s)@
            + decimal(n as nat));
    }
}

/// Appends the decimal representation of `n`.
pub fn push_decimal_u64(s: &mut String, n: u64)
    ensures
        final(s)@ == old(s)@ + decimal(n as nat),
{
    push_decimal(s, n);
}

fn push_two_digits(s: &mut String, n: u64)
    requires
        n < 100,
    ensures
        final(s)@ == old(s)@ + two_digits(n as nat),
{
    push_char(s, digit_char(n / 10));
    push_char(s, digit_char(n % 10));
    assert(final(s)@ =~= old(s)@ + two_digits(n as nat));
}

/// A duration in seconds as `HH:MM:SS`, or `<days>dHH:MM:SS` from a day on.
pub fn format_seconds(t: u64) -> (r: String)
    ensures
        r@ == format_seconds_spec(t as nat),
{
    let seconds = t % 60;
    let minutes = (t / 60) % 60;
    let hours = (t / 3600) % 24;
    let days = t / 86400;
    let mut r = String::new();
    if days != 0 {
        push_decimal(&mut r, days);
        push_char(&mut r, 'd');
    }
    push_two_digits(&mut r, hours);
    push_char(&mut r, ':');
    push_two_digits(&mut r, minutes);
    push_char(&mut r, ':');
    push_two_digits(&mut r, seconds);
    assert(r@ =~= format_seconds_spec(t as nat));
    r
}

/// How a modification date is shown: the time when it is today, the month
/// and day when it is this year, the year and month otherwise.
#[derive(Debug, Clone, Copy, PartialEq, Eq, Structural)]
pub enum DateStyle {
    Time,
    MonthDay,
    YearMonth,
}

/// The style of a date (year, month, day) seen on `today`, both local.
pub fn date_style(date: (i32, u32, u32), today: (i32, u32, u32)) -> (r: DateStyle)
    ensures
        r == if date == today {
            DateStyle::Time
        } else if date.0 == today.0 {
            DateStyle::MonthDay
        } else {
            DateStyle::YearMonth
        },
{
    if date.0 == today.0 && date.1 == today.1 && date.2 == today.2 {
        DateStyle::Time
    } else if date.0 == today.0 {
        DateStyle::MonthDay
    } else {
        DateStyle::YearMonth
    }
}

} // verus!
