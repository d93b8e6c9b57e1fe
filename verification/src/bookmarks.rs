//! Directory bookmarks: one directory per key, kept sorted by key, read from
//! and written to a file of `key:path` lines.  Reading and writing the file is
//! the caller's part; this module parses its lines, keeps the bookmarks, and
//! says when the file has to be rewritten and with what.

use vstd::prelude::*;
use crate::paths::{less, path_equal, path_less};
use crate::strings::{push_char, push_str};

verus! {

broadcast use vstd::string::group_string_axioms;

/// The keys a bookmark may have: ASCII digits and letters.
pub open spec fn is_bookmark_key(c: char) -> bool {
    ('0' <= c && c <= '9') || ('A' <= c && c <= 'Z') || ('a' <= c && c <= 'z')
}

pub(crate) fn bookmark_key(c: char) -> (r: bool)
    ensures
        r == is_bookmark_key(c),
{
    ('0' <= c && c <= '9') || ('A' <= c && c <= 'Z') || ('a' <= c && c <= 'z')
}

/// The bookmarks as (key, directory) pairs.
pub type Marks = Seq<(char, Seq<char>)>;

pub open spec fn marks_view(s: Seq<(char, String)>) -> Marks {
    s.map_values(|p: (char, String)| (p.0, p.1@))
}

/// The index of the first `:` in `line`.
pub open spec fn first_colon(line: Seq<char>, k: nat) -> Option<int>
    decreases line.len() - k,
{
    if k >= line.len() {
        None
    } else if line[k as int] == ':' {
        Some(k as int)
    } else {
        first_colon(line, k + 1)
    }
}

/// A line `k:path` of the bookmarks file, where `k` is a single bookmark key.
pub open spec fn parse_line(line: Seq<char>) -> Option<(char, Seq<char>)> {
    match first_colon(line, 0) {
        Some(i) => if i == 1 && is_bookmark_key(line[0]) {
            Some((line[0], line.skip(i + 1)))
        } else {
            None
        },
        None => None,
    }
}

/// The bookmarks read from the lines of the file, in file order.
pub open spec fn parse_lines(lines: Seq<Seq<char>>) -> Marks
    decreases lines.len(),
{
    if lines.len() == 0 {
        Seq::empty()
    } else {
        let rest = parse_lines(lines.drop_last());
        match parse_line(lines.last()) {
            Some(m) => rest.push(m),
            None => rest,
        }
    }
}

/// The directory of the first bookmark with key `key`.
pub open spec fn get_spec(data: Marks, key: char) -> Option<Seq<char>>
    decreases data.len(),
{
    if data.len() == 0 {
        None
    } else if data[0].0 == key {
        Some(data[0].1)
    } else {
        get_spec(data.drop_first(), key)
    }
}

/// The index of the first bookmark with key `key`.
pub open spec fn index_of(data: Marks, key: char, k: nat) -> Option<int>
    decreases data.len() - k,
{
    if k >= data.len() {
        None
    } else if data[k as int].0 == key {
        Some(k as int)
    } else {
        index_of(data, key, k + 1)
    }
}

/// The order of bookmarks: by key, then by directory (`Path` order).
pub open spec fn mark_less(a: (char, Seq<char>), b: (char, Seq<char>)) -> bool {
    a.0 < b.0 || (a.0 == b.0 && path_less(a.1, b.1))
}

/// Where a bookmark `m` goes in a sorted list: after every bookmark that
/// does not sort after it.
pub open spec fn insert_pos(data: Marks, m: (char, Seq<char>)) -> int
    decreases data.len(),
{
    if data.len() == 0 {
        0
    } else if !mark_less(m, data.last()) {
        data.len() as int
    } else {
        insert_pos(data.drop_last(), m)
    }
}

pub open spec fn insert_sorted(data: Marks, m: (char, Seq<char>)) -> Marks {
    let p = insert_pos(data, m);
    data.take(p).push(m) + data.skip(p)
}

/// The bookmarks sorted by key and directory, keeping the order of equal
/// ones.
pub open spec fn sort_marks(data: Marks) -> Marks
    decreases data.len(),
{
    if data.len() == 0 {
        Seq::empty()
    } else {
        insert_sorted(sort_marks(data.drop_last()), data.last())
    }
}

pub open spec fn is_sorted(data: Marks) -> bool {
    forall|i: int, j: int| 0 <= i < j < data.len() ==> data[i].0 <= data[j].0
}

/// What `insert` does to the bookmarks: the new bookmark list and whether it
/// changed (whether the file is to be rewritten).
pub open spec fn insert_spec(data: Marks, key: char, item: Seq<char>) -> (Marks, bool) {
    if !is_bookmark_key(key) {
        (data, false)
    } else {
        match index_of(data, key, 0) {
            Some(i) => if path_equal(data[i].1, item) {
                (data, false)
            } else {
                (sort_marks(data.update(i, (key, item))), true)
            },
            None => (sort_marks(data.push((key, item))), true),
        }
    }
}

/// What `remove` does: the first bookmark with that key is dropped.
pub open spec fn remove_spec(data: Marks, key: char) -> (Marks, bool) {
    match index_of(data, key, 0) {
        Some(i) => (data.remove(i), true),
        None => (data, false),
    }
}

/// A line of the bookmarks file: `key:path`.
pub open spec fn mark_line(m: (char, Seq<char>)) -> Seq<char> {
    seq![m.0, ':'] + m.1
}

#[derive(Debug)]
pub struct Bookmarks {
    file: Option<String>,
    data: Vec<(char, String)>,
}

impl View for Bookmarks {
    type V = Marks;

    closed spec fn view(&self) -> Marks {
        marks_view(self.data@)
    }
}

proof fn lemma_index_of_bound(data: Marks, key: char, k: nat)
    ensures
        index_of(data, key, k) matches Some(i) ==> k <= i < data.len() && data[i].0 == key,
    decreases data.len() - k,
{
    if k < data.len() {
        lemma_index_of_bound(data, key, k + 1);
    }
}

proof fn lemma_get_index(data: Marks, key: char, k: nat)
    requires
        k <= data.len(),
    ensures
        get_spec(data.skip(k as int), key) == match index_of(data, key, k) {
            Some(i) => Some(data[i].1),
            None => None,
        },
    decreases data.len() - k,
{
    if k < data.len() {
        assert(data.skip(k as int)[0] == data[k as int]);
        assert(data.skip(k as int).drop_first() =~= data.skip(k + 1 as int));
        lemma_get_index(data, key, k + 1);
    } else {
        assert(data.skip(k as int).len() == 0);
    }
}

proof fn lemma_insert_pos_bound(data: Marks, m: (char, Seq<char>))
    ensures
        0 <= insert_pos(data, m) <= data.len(),
    decreases data.len(),
{
    if data.len() > 0 {
        lemma_insert_pos_bound(data.drop_last(), m);
    }
}

/// Inserting into a sorted list keeps it sorted.
proof fn lemma_insert_sorted(data: Marks, m: (char, Seq<char>))
    requires
        is_sorted(data),
    ensures
        is_sorted(insert_sorted(data, m)),
        insert_sorted(data, m).to_multiset() == data.to_multiset().insert(m),
        insert_sorted(data, m).len() == data.len() + 1,
    decreases data.len(),
{
    lemma_insert_pos_bound(data, m);
    let p = insert_pos(data, m);
    let r = insert_sorted(data, m);
    if data.len() == 0 {
        assert(r =~= seq![m]);
        assert(r.to_multiset() =~= data.to_multiset().insert(m)) by {
            broadcast use vstd::seq_lib::group_to_multiset_ensures;
            assert(data =~= Seq::<(char, Seq<char>)>::empty());
        }
    } else if !mark_less(m, data.last()) {
        assert(r =~= data.push(m));
        assert(r.to_multiset() =~= data.to_multiset().insert(m)) by {
            broadcast use vstd::seq_lib::group_to_multiset_ensures;
        }
    } else {
        let d = data.drop_last();
        lemma_insert_sorted(d, m);
        assert(p == insert_pos(d, m));
        lemma_insert_pos_bound(d, m);
        assert(r =~= insert_sorted(d, m).push(data.last()));
        assert forall|i: int, j: int| 0 <= i < j < r.len() implies r[i].0 <= r[j].0 by {
            if j == r.len() - 1 {
                if i < p {
                    assert(r[i] == d[i]);
                    assert(data[i] == d[i]);
                } else if i == p {
                    assert(r[i] == m);
                } else {
                    assert(r[i] == d[i - 1]);
                    assert(data[i - 1] == d[i - 1]);
                }
            } else {
                assert(insert_sorted(d, m)[i] == r[i]);
                assert(insert_sorted(d, m)[j] == r[j]);
            }
        }
        assert(r.to_multiset() =~= data.to_multiset().insert(m)) by {
            broadcast use vstd::seq_lib::group_to_multiset_ensures;
            assert(data =~= d.push(data.last()));
        }
    }
}

/// Sorting bookmarks puts them in key order and keeps every bookmark.
pub proof fn lemma_sort_marks(data: Marks)
    ensures
        is_sorted(sort_marks(data)),
        sort_marks(data).to_multiset() == data.to_multiset(),
        sort_marks(data).len() == data.len(),
    decreases data.len(),
{
    if data.len() == 0 {
        assert(sort_marks(data).to_multiset() =~= data.to_multiset()) by {
            broadcast use vstd::seq_lib::group_to_multiset_ensures;
            assert(data =~= Seq::<(char, Seq<char>)>::empty());
        }
    } else {
        lemma_sort_marks(data.drop_last());
        lemma_insert_sorted(sort_marks(data.drop_last()), data.last());
        assert(data.to_multiset() =~= data.drop_last().to_multiset().insert(data.last())) by {
            broadcast use vstd::seq_lib::group_to_multiset_ensures;
            assert(data =~= data.drop_last().push(data.last()));
        }
    }
}

fn copy_string(s: &String) -> (r: String)
    ensures
        r@ == s@,
{
    s.clone()
}

/// Sorts the bookmarks by key and directory, keeping the order of equal
/// ones.
fn sort_by_key(data: &Vec<(char, String)>) -> (r: Vec<(char, String)>)
    ensures
        marks_view(r@) == sort_marks(marks_view(data@)),
{
    let ghost d = marks_view(data@);
    let mut r: Vec<(char, String)> = Vec::new();
    let mut i: usize = 0;
    assert(d.take(0) =~= Seq::<(char, Seq<char>)>::empty());
    assert(marks_view(r@) =~= sort_marks(d.take(0)));
    while i < data.len()
        invariant
            i <= data@.len(),
            d == marks_view(data@),
            marks_view(r@) == sort_marks(d.take(i as int)),
        decreases data.len() - i,
    {
        let c = data[i].0;
        let ghost m = (c, data@[i as int].1@);
        let ghost rv = marks_view(r@);
        // Find the insertion point: after every entry that does not sort after it.
        let mut p = r.len();
        assert(rv.take(p as int) =~= rv);
        while p > 0 && (c < r[p - 1].0 || (c == r[p - 1].0 && less(data[i].1.as_str(), r[p - 1].1.as_str())))
            invariant
                p <= r@.len(),
                i < data@.len(),
                rv == marks_view(r@),
                m == (c, data@[i as int].1@),
                insert_pos(rv, m) == insert_pos(rv.take(p as int), m),
            decreases p,
        {
            proof {
                assert(rv.take(p as int).drop_last() =~= rv.take(p - 1));
                assert(rv.take(p as int).last() == rv[p - 1]);
            }
            p -= 1;
        }
        proof {
            if p > 0 {
                assert(rv.take(p as int).last() == rv[p - 1]);
                assert(insert_pos(rv.take(p as int), m) == p);
            } else {
                assert(rv.take(0) =~= Seq::<(char, Seq<char>)>::empty());
            }
        }
        let entry = (c, copy_string(&data[i].1));
        r.insert(p, entry);
        proof {
            assert(d.take(i + 1).drop_last() =~= d.take(i as int));
            assert(d.take(i + 1).last() == d[i as int]);
            assert(d[i as int] == (entry.0, entry.1@));
            assert(marks_view(r@) =~= rv.take(p as int).push((entry.0, entry.1@)) + rv.skip(
                p as int,
            ));
        }
        i += 1;
    }
    assert(d.take(i as int) =~= d);
    r
}

impl Bookmarks {
    /// Every bookmark has a valid key: `new` keeps only such lines, and
    /// `insert` refuses other keys.
    #[verifier::type_invariant]
    spec fn inv(self) -> bool {
        valid_keys(marks_view(self.data@))
    }

    /// The bookmarks file, if there is one.
    pub closed spec fn file_path(&self) -> Option<Seq<char>> {
        match self.file {
            Some(f) => Some(f@),
            None => None,
        }
    }

    /// The bookmarks read from the lines of `file` (none when there is no
    /// file or it could not be read): every line `k:path` whose `k` is a single
    /// bookmark key, in file order.
    pub fn new(file: Option<String>, lines: &[String]) -> (r: Bookmarks)
        ensures
            r@ == parse_lines(lines@.map_values(|l: String| l@)),
            r.file_path() == match file {
                Some(f) => Some(f@),
                None => None,
            },
    {
        let ghost ls = lines@.map_values(|l: String| l@);
        let mut data: Vec<(char, String)> = Vec::new();
        let mut i: usize = 0;
        assert(ls.take(0) =~= Seq::<Seq<char>>::empty());
        while i < lines.len()
            invariant
                i <= lines@.len(),
                ls == lines@.map_values(|l: String| l@),
                marks_view(data@) == parse_lines(ls.take(i as int)),
            decreases lines.len() - i,
        {
            proof {
                assert(ls.take(i + 1).drop_last() =~= ls.take(i as int));
                assert(ls.take(i + 1).last() == lines@[i as int]@);
            }
            let ghost before = marks_view(data@);
            match Self::parse_one(&lines[i]) {
                Some(m) => {
                    data.push(m);
                    assert(marks_view(data@) =~= before.push((m.0, m.1@)));
                },
                None => {},
            }
            i += 1;
        }
        assert(ls.take(i as int) =~= ls);
        proof {
            lemma_parse_lines_valid(ls);
        }
        Bookmarks { file, data }
    }

    fn parse_one(line: &String) -> (r: Option<(char, String)>)
        ensures
            match parse_line(line@) {
                Some(m) => r matches Some(x) && x.0 == m.0 && x.1@ == m.1,
                None => r is None,
            },
    {
        let chars = crate::strings::chars_of(line.as_str());
        let mut k: usize = 0;
        while k < chars.len() && chars[k] != ':'
            invariant
                k <= chars@.len(),
                chars@ == line@,
                first_colon(line@, 0) == first_colon(line@, k as nat),
            decreases chars.len() - k,
        {
            k += 1;
        }
        if k < chars.len() && k == 1 && bookmark_key(chars[0]) {
            let mut v = String::new();
            let mut j: usize = 2;
            assert(chars@.skip(2).take(0) =~= Seq::<char>::empty());
            while j < chars.len()
                invariant
                    2 <= j <= chars@.len(),
                    v@ == chars@.skip(2).take(j - 2),
                decreases chars.len() - j,
            {
                push_char(&mut v, chars[j]);
                assert(chars@.skip(2).take(j + 1 - 2) =~= chars@.skip(2).take(j - 2).push(
                    chars@[j as int],
                ));
                j += 1;
            }
            assert(chars@.skip(2).take(j - 2) =~= chars@.skip(2));
            Some((chars[0], v))
        } else {
            None
        }
    }

    /// The directory bookmarked under `key`.
    pub fn get(&self, key: char) -> (r: Option<String>)
        ensures
            match get_spec(self@, key) {
                Some(p) => r matches Some(s) && s@ == p,
                None => r is None,
            },
    {
        proof {
            lemma_get_index(self@, key, 0);
            assert(self@.skip(0) =~= self@);
        }
        match self.find(key) {
            Some(i) => {
                assert(self@[i as int] == (self.data@[i as int].0, self.data@[i as int].1@));
                Some(copy_string(&self.data[i].1))
            },
            None => None,
        }
    }

    fn find(&self, key: char) -> (r: Option<usize>)
        ensures
            match index_of(self@, key, 0) {
                Some(i) => r matches Some(j) && j as int == i,
                None => r is None,
            },
            r matches Some(j) ==> j < self.data@.len() && j < self@.len(),
    {
        proof {
            lemma_index_of_bound(self@, key, 0);
        }
        let ghost d = self@;
        let mut i: usize = 0;
        while i < self.data.len()
            invariant
                i <= self.data@.len(),
                d == marks_view(self.data@),
                index_of(d, key, 0) == index_of(d, key, i as nat),
            decreases self.data.len() - i,
        {
            if self.data[i].0 == key {
                return Some(i);
            }
            i += 1;
        }
        None
    }

    /// Bookmarks `item` under `key` (a digit or an ASCII letter; other keys
    /// are ignored), replacing the directory bookmarked under it, and keeps the
    /// bookmarks sorted by key.  Returns whether the bookmarks changed, that
    /// is whether the file has to be rewritten.
    pub fn insert(&mut self, key: char, item: &str) -> (changed: bool)
        ensures
            insert_spec(old(self)@, key, item@) == (final(self)@, changed),
            final(self).file_path() == old(self).file_path(),
    {
        if !bookmark_key(key) {
            return false;
        }
        match self.find(key) {
            Some(i) => {
                if crate::paths::equal(self.data[i].1.as_str(), item) {
                    assert(self@[i as int] == (self.data@[i as int].0, self.data@[i as int].1@));
                    false
                } else {
                    let ghost before = self@;
                    proof {
                        use_type_invariant(&*self);
                    }
                    let mut d: Vec<(char, String)> = Vec::new();
                    std::mem::swap(&mut d, &mut self.data);
                    d.set(i, (key, item.to_string()));
                    assert(marks_view(d@) =~= before.update(i as int, (key, item@)));
                    let sorted = sort_by_key(&d);
                    proof {
                        lemma_valid_update(before, i as int, (key, item@));
                        lemma_valid_sorted(marks_view(d@));
                    }
                    self.data = sorted;
                    true
                }
            },
            None => {
                let ghost before = self@;
                proof {
                    use_type_invariant(&*self);
                }
                let mut d: Vec<(char, String)> = Vec::new();
                std::mem::swap(&mut d, &mut self.data);
                d.push((key, item.to_string()));
                assert(marks_view(d@) =~= before.push((key, item@)));
                let sorted = sort_by_key(&d);
                proof {
                    lemma_valid_update(before.push((key, item@)), before.len() as int, (key, item@));
                    assert(before.push((key, item@)).update(before.len() as int, (key, item@)) =~= before.push((key, item@)));
                    lemma_valid_sorted(marks_view(d@));
                }
                self.data = sorted;
                true
            },
        }
    }

    /// Removes the bookmark under `key`.  Returns whether the bookmarks
    /// changed, that is whether the file has to be rewritten.
    pub fn remove(&mut self, key: char) -> (changed: bool)
        ensures
            remove_spec(old(self)@, key) == (final(self)@, changed),
            final(self).file_path() == old(self).file_path(),
    {
        match self.find(key) {
            Some(i) => {
                let ghost before = self.data@;
                proof {
                    use_type_invariant(&*self);
                }
                let mut d: Vec<(char, String)> = Vec::new();
                std::mem::swap(&mut d, &mut self.data);
                d.remove(i);
                assert(marks_view(d@) =~= marks_view(before).remove(i as int));
                assert(valid_keys(marks_view(d@))) by {
                    let b = marks_view(before);
                    assert forall|j: int| 0 <= j < marks_view(d@).len() implies is_bookmark_key(
                        #[trigger] marks_view(d@)[j].0,
                    ) by {
                        if j < i {
                            assert(marks_view(d@)[j] == b[j]);
                        } else {
                            assert(marks_view(d@)[j] == b[j + 1]);
                        }
                    }
                }
                self.data = d;
                true
            },
            None => false,
        }
    }

    /// The bookmarks file, if there is one.
    pub fn file(&self) -> (r: Option<String>)
        ensures
            match self.file_path() {
                Some(f) => r matches Some(s) && s@ == f,
                None => r is None,
            },
    {
        match &self.file {
            Some(f) => Some(copy_string(f)),
            None => None,
        }
    }

    /// The lines to write to the bookmarks file: `key:path`, in order.
    pub fn file_lines(&self) -> (r: Vec<String>)
        ensures
            r@.map_values(|l: String| l@) == self@.map_values(|m: (char, Seq<char>)| mark_line(m)),
            parse_lines(r@.map_values(|l: String| l@)) == self@,
    {
        proof {
            use_type_invariant(self);
            law_file_round_trip(self@);
        }
        let ghost d = self@;
        let mut r: Vec<String> = Vec::new();
        let mut i: usize = 0;
        while i < self.data.len()
            invariant
                i <= self.data@.len(),
                d == marks_view(self.data@),
                r@.map_values(|l: String| l@) =~= d.take(i as int).map_values(
                    |m: (char, Seq<char>)| mark_line(m),
                ),
            decreases self.data.len() - i,
        {
            let mut line = String::new();
            push_char(&mut line, self.data[i].0);
            push_char(&mut line, ':');
            push_str(&mut line, self.data[i].1.as_str());
            let ghost before = r@;
            r.push(line);
            proof {
                assert(d[i as int] == (self.data@[i as int].0, self.data@[i as int].1@));
                assert(line@ =~= mark_line(d[i as int]));
                assert(d.take(i + 1) =~= d.take(i as int).push(d[i as int]));
                assert(r@ =~= before.push(line));
                let f = |l: String| l@;
                let g = |m: (char, Seq<char>)| mark_line(m);
                assert(r@.map_values(f) =~= before.map_values(f).push(line@));
                assert(d.take(i + 1).map_values(g) =~= d.take(i as int).map_values(g).push(
                    g(d[i as int]),
                ));
            }
            i += 1;
        }
        assert(d.take(i as int) =~= d);
        r
    }
}

/// Every key of the bookmarks is a valid bookmark key.
pub open spec fn valid_keys(data: Marks) -> bool {
    forall|i: int| 0 <= i < data.len() ==> is_bookmark_key(#[trigger] data[i].0)
}

/// No two bookmarks have the same key.
pub open spec fn distinct_keys(data: Marks) -> bool {
    forall|i: int, j: int| 0 <= i < j < data.len() ==> data[i].0 != data[j].0
}

proof fn lemma_valid_update(data: Marks, i: int, m: (char, Seq<char>))
    requires
        valid_keys(data),
        0 <= i < data.len(),
        is_bookmark_key(m.0),
    ensures
        valid_keys(data.update(i, m)),
{
    assert forall|j: int| 0 <= j < data.update(i, m).len() implies is_bookmark_key(#[trigger] data.update(i, m)[j].0) by {
        if j != i {
            assert(data.update(i, m)[j] == data[j]);
        }
    }
}

proof fn lemma_valid_sorted(data: Marks)
    requires
        valid_keys(data),
    ensures
        valid_keys(sort_marks(data)),
{
    broadcast use vstd::seq_lib::group_to_multiset_ensures;

    lemma_sort_marks(data);
    let r = sort_marks(data);
    assert forall|j: int| 0 <= j < r.len() implies is_bookmark_key(#[trigger] r[j].0) by {
        assert(r.contains(r[j]));
        assert(r.to_multiset().count(r[j]) > 0);
        assert(data.contains(r[j]));
        let k = choose|k: int| 0 <= k < data.len() && data[k] == r[j];
        assert(is_bookmark_key(data[k].0));
    }
}

proof fn lemma_parse_mark_line(m: (char, Seq<char>))
    requires
        is_bookmark_key(m.0),
    ensures
        parse_line(mark_line(m)) == Some(m),
{
    let l = mark_line(m);
    assert(l[0] == m.0);
    assert(l[1] == ':');
    assert(first_colon(l, 1) == Some(1int));
    assert(first_colon(l, 0) == Some(1int));
    assert(l.skip(2) =~= m.1);
}

/// Writing the bookmarks to the file and reading the file back gives the
/// same bookmarks, in the same order.
pub proof fn law_file_round_trip(data: Marks)
    requires
        valid_keys(data),
    ensures
        parse_lines(data.map_values(|m: (char, Seq<char>)| mark_line(m))) == data,
    decreases data.len(),
{
    let f = |m: (char, Seq<char>)| mark_line(m);
    if data.len() > 0 {
        let d = data.drop_last();
        assert(valid_keys(d)) by {
            assert forall|i: int| 0 <= i < d.len() implies is_bookmark_key(#[trigger] d[i].0) by {
                assert(d[i] == data[i]);
            }
        }
        law_file_round_trip(d);
        let ls = data.map_values(f);
        assert(ls.drop_last() =~= d.map_values(f));
        assert(ls.last() == mark_line(data.last()));
        assert(is_bookmark_key(data[data.len() - 1].0));
        lemma_parse_mark_line(data.last());
        assert(d.push(data.last()) =~= data);
    } else {
        assert(data.map_values(f) =~= Seq::<Seq<char>>::empty());
        assert(data =~= Seq::<(char, Seq<char>)>::empty());
    }
}

proof fn lemma_parse_lines_valid(lines: Seq<Seq<char>>)
    ensures
        valid_keys(parse_lines(lines)),
    decreases lines.len(),
{
    if lines.len() > 0 {
        lemma_parse_lines_valid(lines.drop_last());
        let r = parse_lines(lines.drop_last());
        match parse_line(lines.last()) {
            Some(m) => {
                assert forall|i: int| 0 <= i < r.push(m).len() implies is_bookmark_key(#[trigger] r.push(m)[i].0) by {
                    if i < r.len() {
                        assert(r.push(m)[i] == r[i]);
                    }
                }
            },
            None => {},
        }
    }
}

/// The bookmarks read from a file only have valid keys.
pub proof fn law_read_keys_valid(lines: Seq<Seq<char>>)
    ensures
        valid_keys(parse_lines(lines)),
{
    lemma_parse_lines_valid(lines);
}

proof fn lemma_get_member(data: Marks, key: char, v: Seq<char>)
    requires
        distinct_keys(data),
        data.contains((key, v)),
    ensures
        get_spec(data, key) == Some(v),
    decreases data.len(),
{
    if data[0] != (key, v) {
        let k = choose|k: int| 0 <= k < data.len() && data[k] == (key, v);
        assert(k > 0);
        assert(data[0].0 != key);
        let t = data.drop_first();
        assert(t[k - 1] == (key, v));
        assert(distinct_keys(t)) by {
            assert forall|i: int, j: int| 0 <= i < j < t.len() implies t[i].0 != t[j].0 by {
                assert(t[i] == data[i + 1] && t[j] == data[j + 1]);
            }
        }
        lemma_get_member(t, key, v);
    }
}

proof fn lemma_get_absent(data: Marks, key: char)
    requires
        forall|i: int| 0 <= i < data.len() ==> data[i].0 != key,
    ensures
        get_spec(data, key) is None,
    decreases data.len(),
{
    if data.len() > 0 {
        let t = data.drop_first();
        assert forall|i: int| 0 <= i < t.len() implies t[i].0 != key by {
            assert(t[i] == data[i + 1]);
        }
        lemma_get_absent(t, key);
    }
}

proof fn lemma_index_of_absent(data: Marks, key: char, k: nat)
    requires
        forall|i: int| k <= i < data.len() ==> data[i].0 != key,
    ensures
        index_of(data, key, k) is None,
    decreases data.len() - k,
{
    if k < data.len() {
        lemma_index_of_absent(data, key, k + 1);
    }
}

proof fn lemma_index_of_found(data: Marks, key: char, k: nat, i: int)
    requires
        k <= i < data.len(),
        data[i].0 == key,
        forall|j: int| k <= j < i ==> data[j].0 != key,
    ensures
        index_of(data, key, k) == Some(i),
    decreases i - k,
{
    if k < i {
        lemma_index_of_found(data, key, k + 1, i);
    }
}

proof fn lemma_distinct_from_multiset(a: Marks, b: Marks)
    requires
        a.to_multiset() == b.to_multiset(),
        distinct_keys(b),
    ensures
        distinct_keys(a),
{
    broadcast use vstd::seq_lib::group_to_multiset_ensures;
    assert forall|i: int, j: int| 0 <= i < j < a.len() implies a[i].0 != a[j].0 by {
        if a[i].0 == a[j].0 {
            assert(a.contains(a[i]) && a.contains(a[j]));
            assert(b.to_multiset().count(a[i]) > 0 && b.to_multiset().count(a[j]) > 0);
            assert(b.contains(a[i]) && b.contains(a[j]));
            let p = choose|p: int| 0 <= p < b.len() && b[p] == a[i];
            let q = choose|q: int| 0 <= q < b.len() && b[q] == a[j];
            if p == q {
                // The same pair occurs twice in `a`, so twice in `b`: two
                // entries of `b` would share a key.
                assert(a[i] == a[j]);
                lemma_count_two(a, i, j);
                assert(b.to_multiset().count(a[i]) >= 2);
                lemma_count_one(b, p);
                assert(false);
            }
        }
    }
}

proof fn lemma_count_two(a: Marks, i: int, j: int)
    requires
        0 <= i < j < a.len(),
        a[i] == a[j],
    ensures
        a.to_multiset().count(a[i]) >= 2,
    decreases a.len(),
{
    broadcast use vstd::seq_lib::group_to_multiset_ensures;
    let x = a[i];
    if j < a.len() - 1 {
        lemma_count_two(a.drop_last(), i, j);
        assert(a.drop_last().push(a.last()) =~= a);
        assert(a.to_multiset() == a.drop_last().to_multiset().insert(a.last()));
    } else {
        assert(a.drop_last().push(a.last()) =~= a);
        assert(a.drop_last()[i] == x);
        assert(a.drop_last().contains(x));
        assert(a.to_multiset() == a.drop_last().to_multiset().insert(x));
    }
}

proof fn lemma_count_one(b: Marks, p: int)
    requires
        distinct_keys(b),
        0 <= p < b.len(),
    ensures
        b.to_multiset().count(b[p]) == 1,
    decreases b.len(),
{
    broadcast use vstd::seq_lib::group_to_multiset_ensures;
    let d = b.drop_last();
    assert(d.push(b.last()) =~= b);
    assert(distinct_keys(d)) by {
        assert forall|i: int, j: int| 0 <= i < j < d.len() implies d[i].0 != d[j].0 by {
            assert(d[i] == b[i] && d[j] == b[j]);
        }
    }
    if p < b.len() - 1 {
        lemma_count_one(d, p);
        assert(b.last() != b[p]) by {
            assert(b[b.len() - 1].0 != b[p].0);
        }
    } else {
        assert(!d.contains(b[p])) by {
            if d.contains(b[p]) {
                let k = choose|k: int| 0 <= k < d.len() && d[k] == b[p];
                assert(b[k].0 == b[p].0);
            }
        }
    }
}

/// With distinct keys (as bookmarks kept only through `insert` have), a
/// directory bookmarked under a key is what the key gives back, and the keys
/// stay distinct.
pub proof fn law_insert_then_get(data: Marks, key: char, item: Seq<char>)
    requires
        distinct_keys(data),
        is_bookmark_key(key),
    ensures
        distinct_keys(insert_spec(data, key, item).0),
        match get_spec(insert_spec(data, key, item).0, key) {
            Some(v) => v == item || path_equal(v, item),
            None => false,
        },
{
    broadcast use vstd::seq_lib::group_to_multiset_ensures;
    lemma_index_of_bound(data, key, 0);
    match index_of(data, key, 0) {
        Some(i) => {
            if path_equal(data[i].1, item) {
                lemma_get_member(data, key, data[i].1);
            } else {
                let u = data.update(i, (key, item));
                assert(distinct_keys(u)) by {
                    assert forall|a: int, b: int| 0 <= a < b < u.len() implies u[a].0 != u[b].0 by {
                        if a != i && b != i {
                        } else if a == i {
                            assert(data[b].0 != data[i].0);
                        } else {
                            assert(data[a].0 != data[i].0);
                        }
                    }
                }
                lemma_sort_marks(u);
                let r = sort_marks(u);
                lemma_distinct_from_multiset(r, u);
                assert(u.contains((key, item))) by {
                    assert(u[i] == (key, item));
                }
                assert(r.contains((key, item))) by {
                    assert(u.to_multiset().count((key, item)) > 0);
                }
                lemma_get_member(r, key, item);
            }
        },
        None => {
            assert forall|j: int| 0 <= j < data.len() implies data[j].0 != key by {
                if data[j].0 == key {
                    lemma_index_of_found_some(data, key, j);
                }
            }
            let u = data.push((key, item));
            assert(distinct_keys(u)) by {
                assert forall|a: int, b: int| 0 <= a < b < u.len() implies u[a].0 != u[b].0 by {
                    if b == data.len() {
                        assert(u[a] == data[a]);
                    } else {
                        assert(u[a] == data[a] && u[b] == data[b]);
                    }
                }
            }
            lemma_sort_marks(u);
            let r = sort_marks(u);
            lemma_distinct_from_multiset(r, u);
            assert(u.contains((key, item))) by {
                assert(u[data.len() as int] == (key, item));
            }
            assert(r.contains((key, item))) by {
                assert(u.to_multiset().count((key, item)) > 0);
            }
            lemma_get_member(r, key, item);
        },
    }
}

proof fn lemma_index_of_found_some(data: Marks, key: char, j: int)
    requires
        0 <= j < data.len(),
        data[j].0 == key,
    ensures
        index_of(data, key, 0) is Some,
{
    lemma_first_with_key(data, key, j);
}

proof fn lemma_first_with_key(data: Marks, key: char, j: int)
    requires
        0 <= j < data.len(),
        data[j].0 == key,
    ensures
        index_of(data, key, 0) is Some,
    decreases j,
{
    if exists|m: int| 0 <= m < j && data[m].0 == key {
        let m = choose|m: int| 0 <= m < j && data[m].0 == key;
        lemma_first_with_key(data, key, m);
    } else {
        lemma_index_of_found(data, key, 0, j);
    }
}

/// With distinct keys, a removed bookmark is gone.
pub proof fn law_remove_then_get(data: Marks, key: char)
    requires
        distinct_keys(data),
    ensures
        get_spec(remove_spec(data, key).0, key) is None,
        distinct_keys(remove_spec(data, key).0),
{
    lemma_index_of_bound(data, key, 0);
    match index_of(data, key, 0) {
        Some(i) => {
            let r = data.remove(i);
            assert forall|j: int| 0 <= j < r.len() implies r[j].0 != key by {
                if j < i {
                    assert(r[j] == data[j]);
                } else {
                    assert(r[j] == data[j + 1]);
                }
            }
            lemma_get_absent(r, key);
            assert(distinct_keys(r)) by {
                assert forall|a: int, b: int| 0 <= a < b < r.len() implies r[a].0 != r[b].0 by {
                    let a2 = if a < i { a } else { a + 1 };
                    let b2 = if b < i { b } else { b + 1 };
                    assert(r[a] == data[a2] && r[b] == data[b2]);
                }
            }
        },
        None => {
            assert forall|j: int| 0 <= j < data.len() implies data[j].0 != key by {
                if data[j].0 == key {
                    lemma_first_with_key(data, key, j);
                }
            }
            lemma_get_absent(data, key);
        },
    }
}

/// After an insert that changes them, the bookmarks are sorted by key.
pub proof fn law_insert_sorted(data: Marks, key: char, item: Seq<char>)
    ensures
        insert_spec(data, key, item).1 ==> is_sorted(insert_spec(data, key, item).0),
{
    lemma_index_of_bound(data, key, 0);
    if is_bookmark_key(key) {
        match index_of(data, key, 0) {
            Some(i) => lemma_sort_marks(data.update(i, (key, item))),
            None => lemma_sort_marks(data.push((key, item))),
        }
    }
}

/// The keys ascend strictly, as in the file that `insert` writes.
pub open spec fn keys_ascending(data: Marks) -> bool {
    forall|i: int, j: int| 0 <= i < j < data.len() ==> #[trigger] data[i].0 < #[trigger] data[j].0
}

proof fn lemma_sort_ascending(data: Marks)
    requires
        keys_ascending(data),
    ensures
        sort_marks(data) == data,
    decreases data.len(),
{
    if data.len() > 0 {
        let d = data.drop_last();
        let m = data.last();
        assert(keys_ascending(d)) by {
            assert forall|i: int, j: int| 0 <= i < j < d.len() implies #[trigger] d[i].0 < #[trigger] d[j].0 by {
                assert(d[i] == data[i] && d[j] == data[j]);
            }
        }
        lemma_sort_ascending(d);
        if d.len() > 0 {
            assert(d.last() == data[d.len() - 1]);
            assert(data[d.len() - 1].0 < data[data.len() - 1].0);
        }
        assert(insert_pos(d, m) == d.len());
        assert(d.take(d.len() as int).push(m) + d.skip(d.len() as int) =~= data);
    }
}

/// Removing a key just bookmarked, in bookmarks kept in key order without
/// that key, gives back the bookmarks as they were.
pub proof fn law_remove_after_insert(data: Marks, key: char, item: Seq<char>)
    requires
        keys_ascending(data),
        is_bookmark_key(key),
        forall|j: int| 0 <= j < data.len() ==> data[j].0 != key,
    ensures
        remove_spec(insert_spec(data, key, item).0, key).0 == data,
{
    lemma_index_of_bound(data, key, 0);
    let m = (key, item);
    let u = data.push(m);
    assert(u.drop_last() =~= data);
    assert(u.last() == m);
    lemma_sort_ascending(data);
    assert(sort_marks(u) == insert_sorted(data, m));
    lemma_insert_pos_bound(data, m);
    let p = insert_pos(data, m);
    let r = insert_sorted(data, m);
    assert(r[p] == m);
    assert forall|j: int| 0 <= j < p implies r[j].0 != key by {
        assert(r[j] == data[j]);
    }
    lemma_index_of_found(r, key, 0, p);
    assert(r.remove(p) =~= data);
}

/// Inserting into bookmarks kept sorted, with distinct and valid keys, keeps
/// them so; there is one more bookmark exactly when the key is valid and was
/// not bookmarked.
pub proof fn law_insert_keeps_bookmarks(data: Marks, key: char, item: Seq<char>)
    requires
        is_sorted(data),
        distinct_keys(data),
        valid_keys(data),
    ensures
        is_sorted(insert_spec(data, key, item).0),
        distinct_keys(insert_spec(data, key, item).0),
        valid_keys(insert_spec(data, key, item).0),
        insert_spec(data, key, item).0.len() == if is_bookmark_key(key) && !(exists|j: int|
            0 <= j < data.len() && #[trigger] data[j].0 == key) {
            data.len() + 1int
        } else {
            data.len() as int
        },
{
    lemma_index_of_bound(data, key, 0);
    law_insert_sorted(data, key, item);
    if is_bookmark_key(key) {
        law_insert_then_get(data, key, item);
        match index_of(data, key, 0) {
            Some(i) => {
                if !path_equal(data[i].1, item) {
                    lemma_valid_update(data, i, (key, item));
                    lemma_valid_sorted(data.update(i, (key, item)));
                    lemma_sort_marks(data.update(i, (key, item)));
                }
            },
            None => {
                assert forall|j: int| 0 <= j < data.len() implies data[j].0 != key by {
                    if data[j].0 == key {
                        lemma_first_with_key(data, key, j);
                    }
                }
                let u = data.push((key, item));
                assert(valid_keys(u)) by {
                    assert forall|j: int| 0 <= j < u.len() implies is_bookmark_key(#[trigger] u[j].0) by {
                        if j < data.len() {
                            assert(u[j] == data[j]);
                        }
                    }
                }
                lemma_valid_sorted(u);
                lemma_sort_marks(u);
            },
        }
    }
}

} // verus!
