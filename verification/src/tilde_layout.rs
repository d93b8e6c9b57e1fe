//! Shortening a text to a width by cutting out its middle and putting a `~`
//! in its place.

use vstd::prelude::*;
use crate::input::{char_width, cols, cols_of, fit_front};
use crate::strings::{chars_of, push_char};
use unicode_normalization::UnicodeNormalization;
use unicode_width::UnicodeWidthStr;

verus! {

broadcast use vstd::string::group_string_axioms;

/// `UnicodeWidthStr::width`: the number of columns the text takes.
pub uninterp spec fn str_width(s: Seq<char>) -> usize;

/// `UnicodeNormalization::nfkc`: Unicode compatibility composition.
pub uninterp spec fn nfkc(s: Seq<char>) -> Seq<char>;

/// Trusted: calls `UnicodeWidthStr::width`; the result is the named `str_width`.
#[verifier::external_body]
fn width_of_str(s: &str) -> (r: usize)
    ensures
        r == str_width(s@),
{
    s.width()
}

/// Trusted: collects `UnicodeNormalization::nfkc`; the result is the named `nfkc`.
#[verifier::external_body]
fn nfkc_string(s: &str) -> (r: String)
    ensures
        r@ == nfkc(s@),
{
    s.nfkc().collect()
}

/// The number of characters, from the end of `s`, that fit together in
/// `limit` columns (after the `acc` columns already taken).
pub open spec fn fit_back_le(s: Seq<char>, acc: nat, limit: nat) -> nat
    decreases s.len(),
{
    if s.len() == 0 {
        0
    } else if acc + cols(s.last()) <= limit {
        fit_back_le(s.drop_last(), acc + cols(s.last()), limit) + 1
    } else {
        0
    }
}

/// The text as it is when it fits in `max_width` columns; otherwise, of its
/// compatibility-composed form, as many characters from the start as fit in
/// half the width less one, a `~`, as many characters from the end as fit in
/// the rest, the whole cut to `max_width` columns.
pub open spec fn tilde_layout_spec(text: Seq<char>, max_width: nat) -> Seq<char> {
    if str_width(text) <= max_width {
        text
    } else {
        tilde_shorten_spec(nfkc(text), max_width)
    }
}

/// Of `norm`, as many characters from the start as fit in half the width
/// less one, a `~`, as many characters from the end as fit in the rest, the
/// whole cut to `max_width` columns.
pub open spec fn tilde_shorten_spec(norm: Seq<char>, max_width: nat) -> Seq<char> {
    let full_width: nat = if max_width >= 3 { (max_width - 1) as nat } else { 2 };
    let max_left = full_width / 2;
    let max_right = (full_width - max_left) as nat;
    let left = norm.take(fit_front(norm, 0, max_left) as int);
    let right = norm.skip(norm.len() - fit_back_le(norm, 0, max_right));
    let joined = left.push('~') + right;
    joined.take(fit_front(joined, 0, max_width) as int)
}

proof fn lemma_fit_front_bound(s: Seq<char>, acc: nat, limit: nat)
    ensures
        fit_front(s, acc, limit) <= s.len(),
    decreases s.len(),
{
    if s.len() > 0 {
        lemma_fit_front_bound(s.drop_first(), acc + cols(s[0]), limit);
    }
}

proof fn lemma_fit_back_bound(s: Seq<char>, acc: nat, limit: nat)
    ensures
        fit_back_le(s, acc, limit) <= s.len(),
    decreases s.len(),
{
    if s.len() > 0 {
        lemma_fit_back_bound(s.drop_last(), acc + cols(s.last()), limit);
    }
}

/// The characters from the start of `v` that fit in `limit` columns.
fn take_front(v: &Vec<char>, limit: usize) -> (r: Vec<char>)
    ensures
        r@ == v@.take(fit_front(v@, 0, limit as nat) as int),
{
    let mut r: Vec<char> = Vec::new();
    let mut k: usize = 0;
    let mut used: usize = 0;
    let mut stopped = false;
    assert(v@.skip(0) =~= v@);
    while k < v.len() && !stopped
        invariant
            k <= v@.len(),
            used <= limit,
            r@ == v@.take(k as int),
            !stopped ==> fit_front(v@, 0, limit as nat) == fit_front(v@.skip(k as int), used as nat, limit as nat) + k,
            stopped ==> fit_front(v@, 0, limit as nat) == k,
        decreases v@.len() - k, if stopped { 0int } else { 1int },
    {
        let ch = v[k];
        let w = cols_of(ch);
        proof {
            assert(v@.skip(k as int)[0] == ch);
            assert(v@.skip(k as int).drop_first() =~= v@.skip(k + 1));
        }
        if w <= limit - used {
            used = used + w;
            r.push(ch);
            assert(v@.take(k + 1) =~= v@.take(k as int).push(ch));
            k = k + 1;
        } else {
            stopped = true;
        }
    }
    proof {
        if !stopped {
            assert(v@.skip(k as int).len() == 0);
        }
    }
    r
}

/// The number of characters from the end of `v` that fit in `limit` columns.
fn count_back(v: &Vec<char>, limit: usize) -> (n: usize)
    ensures
        n == fit_back_le(v@, 0, limit as nat),
{
    let mut n: usize = 0;
    let mut used: usize = 0;
    let mut stopped = false;
    assert(v@.take(v@.len() as int) =~= v@);
    while n < v.len() && !stopped
        invariant
            n <= v@.len(),
            used <= limit,
            !stopped ==> fit_back_le(v@, 0, limit as nat) == fit_back_le(v@.take(v@.len() - n), used as nat, limit as nat) + n,
            stopped ==> fit_back_le(v@, 0, limit as nat) == n,
        decreases v@.len() - n, if stopped { 0int } else { 1int },
    {
        let ch = v[v.len() - 1 - n];
        let w = cols_of(ch);
        proof {
            let s = v@.take(v@.len() - n);
            assert(s.last() == ch);
            assert(s.drop_last() =~= v@.take(v@.len() - (n + 1)));
        }
        if w <= limit - used {
            used = used + w;
            n = n + 1;
        } else {
            stopped = true;
        }
    }
    proof {
        if !stopped {
            assert(v@.take(v@.len() - n) =~= Seq::<char>::empty());
        }
    }
    n
}

/// Shortens `text` to `max_width` columns by replacing its middle with `~`.
pub fn tilde_layout(text: &str, max_width: usize) -> (r: String)
    ensures
        r@ == tilde_layout_spec(text@, max_width as nat),
{
    if width_of_str(text) <= max_width {
        return text.to_string();
    }
    let norm_string = nfkc_string(text);
    tilde_shorten(norm_string.as_str(), max_width)
}

/// Shortens the (compatibility-composed) text `norm_text`, which does not
/// fit in `max_width` columns, by replacing its middle with `~`.
pub fn tilde_shorten(norm_text: &str, max_width: usize) -> (r: String)
    ensures
        r@ == tilde_shorten_spec(norm_text@, max_width as nat),
{
    let norm = chars_of(norm_text);
    let full_width = if max_width >= 3 { max_width - 1 } else { 2 };
    let max_left = full_width / 2;
    let max_right = full_width - max_left;
    let left = take_front(&norm, max_left);
    let n_right = count_back(&norm, max_right);
    proof {
        lemma_fit_back_bound(norm@, 0, max_right as nat);
    }
    let mut joined = left;
    joined.push('~');
    let mut i = norm.len() - n_right;
    let ghost j0 = joined@;
    while i < norm.len()
        invariant
            n_right <= norm@.len(),
            norm@.len() - n_right <= i <= norm@.len(),
            joined@ == j0 + norm@.subrange(norm@.len() - n_right, i as int),
        decreases norm@.len() - i,
    {
        joined.push(norm[i]);
        assert(norm@.subrange(norm@.len() - n_right, i + 1) =~= norm@.subrange(
            norm@.len() - n_right,
            i as int,
        ).push(norm@[i as int]));
        i += 1;
    }
    assert(norm@.subrange(norm@.len() - n_right, norm@.len() as int) =~= norm@.skip(
        norm@.len() - n_right,
    ));
    let shown = take_front(&joined, max_width);
    crate::strings::string_from_chars(&shown)
}


/// The columns taken once the characters from the start of `s` that fit in
/// `limit` columns (after `acc`) are taken.
pub open spec fn fit_front_acc(s: Seq<char>, acc: nat, limit: nat) -> nat
    decreases s.len(),
{
    if s.len() == 0 {
        acc
    } else if acc + cols(s[0]) <= limit {
        fit_front_acc(s.drop_first(), acc + cols(s[0]), limit)
    } else {
        acc
    }
}

/// The columns taken once the characters from the end of `s` that fit in
/// `limit` columns (after `acc`) are taken.
pub open spec fn fit_back_acc(s: Seq<char>, acc: nat, limit: nat) -> nat
    decreases s.len(),
{
    if s.len() == 0 {
        acc
    } else if acc + cols(s.last()) <= limit {
        fit_back_acc(s.drop_last(), acc + cols(s.last()), limit)
    } else {
        acc
    }
}

/// Styled pieces of text.
pub type Styled<S> = Seq<(Seq<char>, S)>;

pub open spec fn styled_view<S>(v: Seq<(String, S)>) -> Styled<S> {
    v.map_values(|p: (String, S)| (p.0@, p.1))
}

/// The columns the pieces take together.
pub open spec fn styled_width<S>(segs: Styled<S>) -> int
    decreases segs.len(),
{
    if segs.len() == 0 {
        0
    } else {
        styled_width(segs.drop_last()) + str_width(segs.last().0)
    }
}

/// The pieces from the start that fit in `limit` columns (after `acc`):
/// whole pieces while they fit, then of a piece that does not, the
/// characters that do; no more once the columns are used up.
pub open spec fn take_front_styled<S>(segs: Styled<S>, acc: nat, limit: nat) -> Styled<S>
    decreases segs.len(),
{
    if segs.len() == 0 || acc >= limit {
        Seq::empty()
    } else {
        let t = segs[0].0;
        let w = str_width(t);
        if acc + w <= limit {
            seq![segs[0]] + take_front_styled(segs.drop_first(), (acc + w) as nat, limit)
        } else {
            seq![(t.take(fit_front(t, acc, limit) as int), segs[0].1)] + take_front_styled(
                segs.drop_first(),
                fit_front_acc(t, acc, limit),
                limit,
            )
        }
    }
}

/// The pieces from the end that fit in `limit` columns (after `acc`), in
/// their order: whole pieces while they fit, then of a piece that does not,
/// the characters from its end that do.
pub open spec fn take_back_styled<S>(segs: Styled<S>, acc: nat, limit: nat) -> Styled<S>
    decreases segs.len(),
{
    if segs.len() == 0 || acc >= limit {
        Seq::empty()
    } else {
        let t = segs.last().0;
        let w = str_width(t);
        if acc + w <= limit {
            take_back_styled(segs.drop_last(), (acc + w) as nat, limit).push(segs.last())
        } else {
            take_back_styled(segs.drop_last(), fit_back_acc(t, acc, limit), limit).push(
                (t.skip(t.len() - fit_back_le(t, acc, limit)), segs.last().1),
            )
        }
    }
}

/// `tilde_layout` for styled pieces: they are kept when they fit; otherwise
/// of their compatibility-composed forms, the pieces that fit in half the
/// width less one from the start, a `~` styled as the piece before it (or
/// after it), the pieces that fit in the rest from the end, the whole cut
/// to `max_width` columns.
pub open spec fn tilde_layout_styled_spec<S>(segs: Styled<S>, max_width: nat, default_style: S) -> Styled<S> {
    if styled_width(segs) <= max_width {
        segs
    } else {
        tilde_shorten_styled_spec(segs.map_values(|p: (Seq<char>, S)| (nfkc(p.0), p.1)), max_width, default_style)
    }
}

/// Of the (compatibility-composed) pieces `norm`: the pieces that fit in
/// half the width less one from the start, a `~` styled as the piece before
/// it (or after it), the pieces that fit in the rest from the end, the whole
/// cut to `max_width` columns.
pub open spec fn tilde_shorten_styled_spec<S>(norm: Styled<S>, max_width: nat, default_style: S) -> Styled<S> {
    {
        let full_width: nat = if max_width >= 3 { (max_width - 1) as nat } else { 2 };
        let max_left = full_width / 2;
        let max_right = (full_width - max_left) as nat;
        let left = take_front_styled(norm, 0, max_left);
        let right = take_back_styled(norm, 0, max_right);
        let tilde_style = if left.len() > 0 {
            left.last().1
        } else if right.len() > 0 {
            right[0].1
        } else {
            default_style
        };
        take_front_styled(left.push((seq!['~'], tilde_style)) + right, 0, max_width)
    }
}

/// The characters from the start of `v` that fit in `limit` columns after
/// `acc`, and the columns taken then.
fn front_fit(v: &Vec<char>, acc: usize, limit: usize) -> (r: (Vec<char>, usize))
    requires
        acc <= limit,
    ensures
        r.0@ == v@.take(fit_front(v@, acc as nat, limit as nat) as int),
        r.1 == fit_front_acc(v@, acc as nat, limit as nat),
        r.1 <= limit,
{
    let mut r: Vec<char> = Vec::new();
    let mut k: usize = 0;
    let mut used: usize = acc;
    let mut stopped = false;
    assert(v@.skip(0) =~= v@);
    while k < v.len() && !stopped
        invariant
            k <= v@.len(),
            acc <= used <= limit,
            r@ == v@.take(k as int),
            !stopped ==> fit_front(v@, acc as nat, limit as nat) == fit_front(v@.skip(k as int), used as nat, limit as nat) + k,
            !stopped ==> fit_front_acc(v@, acc as nat, limit as nat) == fit_front_acc(v@.skip(k as int), used as nat, limit as nat),
            stopped ==> fit_front(v@, acc as nat, limit as nat) == k,
            stopped ==> fit_front_acc(v@, acc as nat, limit as nat) == used,
        decreases v@.len() - k, if stopped { 0int } else { 1int },
    {
        let ch = v[k];
        let w = cols_of(ch);
        proof {
            assert(v@.skip(k as int)[0] == ch);
            assert(v@.skip(k as int).drop_first() =~= v@.skip(k + 1));
        }
        if w <= limit - used {
            used = used + w;
            r.push(ch);
            assert(v@.take(k + 1) =~= v@.take(k as int).push(ch));
            k = k + 1;
        } else {
            stopped = true;
        }
    }
    proof {
        if !stopped {
            assert(v@.skip(k as int).len() == 0);
            assert(v@.take(k as int) =~= v@);
        }
    }
    (r, used)
}

/// The characters from the end of `v` that fit in `limit` columns after
/// `acc`, and the columns taken then.
fn back_fit(v: &Vec<char>, acc: usize, limit: usize) -> (r: (Vec<char>, usize))
    requires
        acc <= limit,
    ensures
        fit_back_le(v@, acc as nat, limit as nat) <= v@.len(),
        r.0@ == v@.skip(v@.len() - fit_back_le(v@, acc as nat, limit as nat)),
        r.1 == fit_back_acc(v@, acc as nat, limit as nat),
        r.1 <= limit,
{
    let mut n: usize = 0;
    let mut used: usize = acc;
    let mut stopped = false;
    assert(v@.take(v@.len() as int) =~= v@);
    while n < v.len() && !stopped
        invariant
            n <= v@.len(),
            acc <= used <= limit,
            !stopped ==> fit_back_le(v@, acc as nat, limit as nat) == fit_back_le(v@.take(v@.len() - n), used as nat, limit as nat) + n,
            !stopped ==> fit_back_acc(v@, acc as nat, limit as nat) == fit_back_acc(v@.take(v@.len() - n), used as nat, limit as nat),
            stopped ==> fit_back_le(v@, acc as nat, limit as nat) == n,
            stopped ==> fit_back_acc(v@, acc as nat, limit as nat) == used,
        decreases v@.len() - n, if stopped { 0int } else { 1int },
    {
        let ch = v[v.len() - 1 - n];
        let w = cols_of(ch);
        proof {
            let s = v@.take(v@.len() - n);
            assert(s.last() == ch);
            assert(s.drop_last() =~= v@.take(v@.len() - (n + 1)));
        }
        if w <= limit - used {
            used = used + w;
            n = n + 1;
        } else {
            stopped = true;
        }
    }
    proof {
        if !stopped {
            assert(v@.take(v@.len() - n) =~= Seq::<char>::empty());
        }
    }
    let mut r: Vec<char> = Vec::new();
    let mut i: usize = v.len() - n;
    while i < v.len()
        invariant
            n <= v@.len(),
            v@.len() - n <= i <= v@.len(),
            r@ == v@.subrange(v@.len() - n, i as int),
        decreases v@.len() - i,
    {
        r.push(v[i]);
        assert(v@.subrange(v@.len() - n, i + 1) =~= v@.subrange(v@.len() - n, i as int).push(v@[i as int]));
        i += 1;
    }
    assert(v@.subrange(v@.len() - n, v@.len() as int) =~= v@.skip(v@.len() - n));
    (r, used)
}

fn styled_front<S: Copy>(segs: &Vec<(String, S)>, limit: usize) -> (r: Vec<(String, S)>)
    ensures
        styled_view(r@) == take_front_styled(styled_view(segs@), 0, limit as nat),
{
    let ghost all = styled_view(segs@);
    let mut r: Vec<(String, S)> = Vec::new();
    let mut used: usize = 0;
    let mut k: usize = 0;
    assert(all.skip(0) =~= all);
    assert(styled_view(r@) + take_front_styled(all, 0, limit as nat) =~= take_front_styled(all, 0, limit as nat));
    while k < segs.len() && used < limit
        invariant
            k <= segs@.len(),
            used <= limit,
            all == styled_view(segs@),
            take_front_styled(all, 0, limit as nat) == styled_view(r@) + take_front_styled(
                all.skip(k as int),
                used as nat,
                limit as nat,
            ),
        decreases segs.len() - k,
    {
        let (text, style) = (&segs[k].0, segs[k].1);
        let w = width_of_str(text.as_str());
        let ghost rest = all.skip(k as int);
        proof {
            assert(rest[0] == (text@, style));
            assert(rest.drop_first() =~= all.skip(k + 1));
        }
        let ghost before = styled_view(r@);
        if w <= limit - used {
            r.push((text.clone(), style));
            used = used + w;
            assert(styled_view(r@) =~= before + seq![rest[0]]);
        } else {
            let chars = chars_of(text.as_str());
            let (taken, new_used) = front_fit(&chars, used, limit);
            let piece = crate::strings::string_from_chars(&taken);
            r.push((piece, style));
            used = new_used;
            assert(styled_view(r@) =~= before.push((taken@, style)));
        }
        k += 1;
    }
    proof {
        let rest = all.skip(k as int);
        assert(rest.len() == 0 || used >= limit);
        assert(take_front_styled(rest, used as nat, limit as nat) =~= Seq::<(Seq<char>, S)>::empty());
        assert(styled_view(r@) + Seq::<(Seq<char>, S)>::empty() =~= styled_view(r@));
    }
    r
}



proof fn lemma_styled_view_push<S>(v: Seq<(String, S)>, x: (String, S))
    ensures
        styled_view(v.push(x)) == styled_view(v).push((x.0@, x.1)),
{
    assert(styled_view(v.push(x)) =~= styled_view(v).push((x.0@, x.1))) by {
        assert forall|k: int| 0 <= k < v.len() + 1 implies #[trigger] styled_view(v.push(x))[k]
            == styled_view(v).push((x.0@, x.1))[k] by {
            if k < v.len() {
                assert(v.push(x)[k] == v[k]);
            }
        }
    }
}

fn styled_back<S: Copy>(segs: &Vec<(String, S)>, limit: usize) -> (r: Vec<(String, S)>)
    ensures
        styled_view(r@) == take_back_styled(styled_view(segs@), 0, limit as nat),
{
    let ghost all = styled_view(segs@);
    let mut r: Vec<(String, S)> = Vec::new();
    let mut used: usize = 0;
    let mut k: usize = segs.len();
    assert(all.take(k as int) =~= all);
    assert(take_back_styled(all, 0, limit as nat) + styled_view(r@) =~= take_back_styled(all, 0, limit as nat));
    while k > 0 && used < limit
        invariant
            k <= segs@.len(),
            used <= limit,
            all == styled_view(segs@),
            take_back_styled(all, 0, limit as nat) == take_back_styled(
                all.take(k as int),
                used as nat,
                limit as nat,
            ) + styled_view(r@),
        decreases k,
    {
        let (text, style) = (&segs[k - 1].0, segs[k - 1].1);
        let w = width_of_str(text.as_str());
        let ghost rest = all.take(k as int);
        proof {
            assert(rest.last() == (text@, style));
            assert(rest.drop_last() =~= all.take(k - 1));
        }
        let ghost after = styled_view(r@);
        if w <= limit - used {
            r.insert(0, (text.clone(), style));
            used = used + w;
            assert(styled_view(r@) =~= seq![rest.last()] + after);
        } else {
            let chars = chars_of(text.as_str());
            let (taken, new_used) = back_fit(&chars, used, limit);
            let piece = crate::strings::string_from_chars(&taken);
            r.insert(0, (piece, style));
            used = new_used;
            assert(styled_view(r@) =~= seq![(taken@, style)] + after);
        }
        k -= 1;
    }
    proof {
        let rest = all.take(k as int);
        assert(rest.len() == 0 || used >= limit);
        assert(take_back_styled(rest, used as nat, limit as nat) =~= Seq::<(Seq<char>, S)>::empty());
        assert(Seq::<(Seq<char>, S)>::empty() + styled_view(r@) =~= styled_view(r@));
    }
    r
}

/// Shortens styled pieces of text to `max_width` columns by replacing their
/// middle with a `~`, styled as the piece before it (or after it, or with
/// `default_style` when there is none).
pub fn tilde_layout_styled<S: Copy>(styled_text: &Vec<(String, S)>, max_width: usize, default_style: S) -> (r: Vec<(String, S)>)
    ensures
        styled_view(r@) == tilde_layout_styled_spec(styled_view(styled_text@), max_width as nat, default_style),
{
    let ghost segs = styled_view(styled_text@);
    let mut total: usize = 0;
    let mut fits = true;
    let mut k: usize = 0;
    assert(segs.take(0) =~= Seq::<(Seq<char>, S)>::empty());
    while k < styled_text.len()
        invariant
            k <= styled_text@.len(),
            segs == styled_view(styled_text@),
            fits ==> total == styled_width(segs.take(k as int)),
            !fits ==> styled_width(segs.take(k as int)) > usize::MAX,
        decreases styled_text.len() - k,
    {
        let w = width_of_str(styled_text[k].0.as_str());
        proof {
            assert(segs.take(k + 1).drop_last() =~= segs.take(k as int));
            assert(segs.take(k + 1).last() == segs[k as int]);
            lemma_styled_width_nonneg(segs.take(k as int));
        }
        if fits {
            match total.checked_add(w) {
                Some(t) => {
                    total = t;
                },
                None => {
                    fits = false;
                },
            }
        }
        k += 1;
    }
    assert(segs.take(k as int) =~= segs);
    if fits && total <= max_width {
        let mut copy: Vec<(String, S)> = Vec::new();
        let mut i: usize = 0;
        while i < styled_text.len()
            invariant
                i <= styled_text@.len(),
                segs == styled_view(styled_text@),
                styled_view(copy@) == segs.take(i as int),
            decreases styled_text.len() - i,
        {
            let ghost before = copy@;
            let item = (styled_text[i].0.clone(), styled_text[i].1);
            copy.push(item);
            proof {
                lemma_styled_view_push(before, item);
                assert(segs.take(i + 1) =~= segs.take(i as int).push(segs[i as int]));
            }
            i += 1;
        }
        assert(segs.take(i as int) =~= segs);
        return copy;
    }
    let mut norm: Vec<(String, S)> = Vec::new();
    let mut i: usize = 0;
    while i < styled_text.len()
        invariant
            i <= styled_text@.len(),
            segs == styled_view(styled_text@),
            styled_view(norm@) == segs.take(i as int).map_values(|p: (Seq<char>, S)| (nfkc(p.0), p.1)),
        decreases styled_text.len() - i,
    {
        let ghost before = norm@;
        let item = (nfkc_string(styled_text[i].0.as_str()), styled_text[i].1);
        norm.push(item);
        proof {
            lemma_styled_view_push(before, item);
            assert(segs.take(i + 1).map_values(|p: (Seq<char>, S)| (nfkc(p.0), p.1)) =~= segs.take(
                i as int,
            ).map_values(|p: (Seq<char>, S)| (nfkc(p.0), p.1)).push((nfkc(segs[i as int].0), segs[i as int].1)));
        }
        i += 1;
    }
    assert(segs.take(i as int) =~= segs);
    tilde_shorten_styled(&norm, max_width, default_style)
}

/// Shortens the (compatibility-composed) pieces `norm`, which do not fit in
/// `max_width` columns, by replacing their middle with a `~`.
pub fn tilde_shorten_styled<S: Copy>(norm: &Vec<(String, S)>, max_width: usize, default_style: S) -> (r: Vec<(String, S)>)
    ensures
        styled_view(r@) == tilde_shorten_styled_spec(styled_view(norm@), max_width as nat, default_style),
{
    let full_width = if max_width >= 3 { max_width - 1 } else { 2 };
    let max_left = full_width / 2;
    let max_right = full_width - max_left;
    let left = styled_front(norm, max_left);
    let right = styled_back(norm, max_right);
    let tilde_style = if left.len() > 0 {
        left[left.len() - 1].1
    } else if right.len() > 0 {
        right[0].1
    } else {
        default_style
    };
    let mut joined: Vec<(String, S)> = Vec::new();
    let mut j: usize = 0;
    while j < left.len()
        invariant
            j <= left@.len(),
            styled_view(joined@) == styled_view(left@).take(j as int),
        decreases left.len() - j,
    {
        let ghost before = joined@;
        let item = (left[j].0.clone(), left[j].1);
        joined.push(item);
        proof {
            lemma_styled_view_push(before, item);
            assert(styled_view(left@).take(j + 1) =~= styled_view(left@).take(j as int).push(styled_view(left@)[j as int]));
        }
        j += 1;
    }
    assert(styled_view(left@).take(j as int) =~= styled_view(left@));
    let mut tilde = String::new();
    crate::strings::push_char(&mut tilde, '~');
    let ghost before_tilde = joined@;
    let item = (tilde, tilde_style);
    joined.push(item);
    let ghost with_tilde = styled_view(left@).push((seq!['~'], tilde_style));
    proof {
        lemma_styled_view_push(before_tilde, item);
    }
    assert(styled_view(joined@) =~= with_tilde);
    let mut m: usize = 0;
    while m < right.len()
        invariant
            m <= right@.len(),
            styled_view(joined@) == with_tilde + styled_view(right@).take(m as int),
        decreases right.len() - m,
    {
        let ghost before = joined@;
        let item = (right[m].0.clone(), right[m].1);
        joined.push(item);
        proof {
            lemma_styled_view_push(before, item);
            assert(with_tilde + styled_view(right@).take(m + 1) =~= (with_tilde + styled_view(right@).take(
                m as int,
            )).push(styled_view(right@)[m as int]));
        }
        m += 1;
    }
    assert(styled_view(right@).take(m as int) =~= styled_view(right@));
    proof {
        if left@.len() > 0 {
            assert(styled_view(left@).last() == (left@[left@.len() - 1].0@, left@[left@.len() - 1].1));
        }
        if right@.len() > 0 {
            assert(styled_view(right@)[0] == (right@[0].0@, right@[0].1));
        }
    }
    styled_front(&joined, max_width)
}

proof fn lemma_styled_width_nonneg<S>(segs: Styled<S>)
    ensures
        styled_width(segs) >= 0,
    decreases segs.len(),
{
    if segs.len() > 0 {
        lemma_styled_width_nonneg(segs.drop_last());
    }
}

} // verus!
