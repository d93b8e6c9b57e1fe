//! The entries of a directory listing as the file panel shows them: which of
//! them are shown under a filter, and how two of them compare under each sort
//! order.  Reading the directory and the files' metadata is the caller's.

use vstd::prelude::*;
use std::cmp::Ordering;
use crate::names::{case_fold, decimal, natsort_key, nfkd, push_decimal_u64};
use crate::stat::{filemode, filemode_spec};
use crate::strings::{push_char, push_str};
use fuzzy_matcher::FuzzyMatcher;

verus! {

broadcast use vstd::string::group_string_axioms;

/// The file name extensions of the archives that can be mounted.
pub const ARCHIVE_EXTENSIONS: [&'static str; 30] = [
    ".tar",
    ".tar.gz",
    ".tgz",
    ".taz",
    ".tar.z",
    ".taz",
    ".tar.bz2",
    ".tz2",
    ".tbz2",
    ".tbz",
    ".tar.lz",
    ".tar.lzma",
    ".tlz",
    ".tar.lzo",
    ".tar.xz",
    ".tar.zst",
    ".tzst",
    ".rpm",
    ".deb",
    ".iso",
    ".zip",
    ".zipx",
    ".jar",
    ".apk",
    ".shar",
    ".lha",
    ".lzh",
    ".rar",
    ".cab",
    ".7z",
];

/// `ext` is the extension of an archive that can be mounted.
pub open spec fn is_archive_extension_spec(ext: Seq<char>) -> bool {
    exists|i: int| 0 <= i < 30 && (#[trigger] ARCHIVE_EXTENSIONS[i])@ == ext
}

/// Whether `ext` is one of `ARCHIVE_EXTENSIONS`.
pub fn is_archive_extension(ext: &str) -> (r: bool)
    ensures
        r == is_archive_extension_spec(ext@),
{
    let mut i: usize = 0;
    while i < 30
        invariant
            i <= 30,
            forall|j: int| 0 <= j < i ==> (#[trigger] ARCHIVE_EXTENSIONS[j])@ != ext@,
        decreases 30 - i,
    {
        if crate::strings::str_eq(ARCHIVE_EXTENSIONS[i], ext) {
            return true;
        }
        i += 1;
    }
    false
}

/// The color class of an entry.
#[derive(Debug, Clone, Copy, PartialEq, Eq, Structural)]
pub enum Palette {
    DirSymlink,
    Archive,
    Symlink,
    Stalelink,
    Directory,
    Device,
    Special,
    Executable,
    Panel,
}

/// An entry of a directory listing, with what the panel shows and sorts by.
#[derive(Debug)]
pub struct Entry {
    pub file: String,
    pub file_name: String,
    /// The sort key of the name (`natsort_key`).
    pub key: String,
    pub extension: String,
    pub label: String,
    pub palette: Palette,
    /// The entry is a directory (or a link to one).
    pub is_dir: bool,
    /// The modification time (nanoseconds since the epoch), when known.
    pub modified: Option<i128>,
    pub shown_mtime: String,
    pub size: Option<u64>,
    pub shown_size: String,
    pub details: String,
    pub link_target: Option<String>,
}

impl Entry {
    /// A copy of the entry.
    pub fn duplicate(&self) -> (r: Entry)
        ensures
            r == *self,
    {
        Entry {
            file: self.file.clone(),
            file_name: self.file_name.clone(),
            key: self.key.clone(),
            extension: self.extension.clone(),
            label: self.label.clone(),
            palette: self.palette,
            is_dir: self.is_dir,
            modified: self.modified,
            shown_mtime: self.shown_mtime.clone(),
            size: self.size,
            shown_size: self.shown_size.clone(),
            details: self.details.clone(),
            link_target: match &self.link_target {
                Some(t) => Some(t.clone()),
                None => None,
            },
        }
    }
}


/// What kind of file a directory entry is (by `lstat`).
#[derive(Debug, Clone, Copy, PartialEq, Eq, Structural)]
pub enum FileKind {
    /// A symbolic link; what it leads to is given apart.
    Symlink,
    Directory,
    CharDevice,
    BlockDevice,
    Fifo,
    Socket,
    /// A regular file, or anything else.
    Other,
}

/// Where a symbolic link leads (by `stat`).
#[derive(Debug, Clone, Copy, PartialEq, Eq, Structural)]
pub enum LinkTarget {
    Directory,
    File,
    /// The link is stale.
    Missing,
}

/// The mark before the name in the list, and the color class of an entry:
/// `~` a link to a directory, `@` a link to a file, `!` a stale link, `/` a
/// directory, `-` and `+` devices, `|` a pipe, `=` a socket, `*` an
/// executable, and a space for other files; archives (by their extension)
/// get the archive color where a link or a file would get its own.
pub open spec fn entry_mark(kind: FileKind, link: LinkTarget, mode: u32, archive: bool) -> (char, Palette) {
    match kind {
        FileKind::Symlink => match link {
            LinkTarget::Directory => ('~', Palette::DirSymlink),
            LinkTarget::File => ('@', if archive { Palette::Archive } else { Palette::Symlink }),
            LinkTarget::Missing => ('!', Palette::Stalelink),
        },
        FileKind::Directory => ('/', Palette::Directory),
        FileKind::CharDevice => ('-', Palette::Device),
        FileKind::BlockDevice => ('+', Palette::Device),
        FileKind::Fifo => ('|', Palette::Special),
        FileKind::Socket => ('=', Palette::Special),
        FileKind::Other => if mode & 0o111u32 != 0 {
            ('*', if archive { Palette::Archive } else { Palette::Executable })
        } else {
            (' ', if archive { Palette::Archive } else { Palette::Panel })
        },
    }
}

/// The label of an entry (its mark, then its name) and its color class;
/// `extension` is the sort key of its suffix.
pub fn entry_label(kind: FileKind, link: LinkTarget, mode: u32, file_name: &str, extension: &str) -> (r: (String, Palette))
    ensures
        ({
            let (mark, palette) = entry_mark(kind, link, mode, is_archive_extension_spec(extension@));
            r.0@ == seq![mark] + file_name@ && r.1 == palette
        }),
{
    let archive = is_archive_extension(extension);
    let (mark, palette) = match kind {
        FileKind::Symlink => match link {
            LinkTarget::Directory => ('~', Palette::DirSymlink),
            LinkTarget::File => ('@', if archive { Palette::Archive } else { Palette::Symlink }),
            LinkTarget::Missing => ('!', Palette::Stalelink),
        },
        FileKind::Directory => ('/', Palette::Directory),
        FileKind::CharDevice => ('-', Palette::Device),
        FileKind::BlockDevice => ('+', Palette::Device),
        FileKind::Fifo => ('|', Palette::Special),
        FileKind::Socket => ('=', Palette::Special),
        FileKind::Other => if mode & 0o111u32 != 0 {
            ('*', if archive { Palette::Archive } else { Palette::Executable })
        } else {
            (' ', if archive { Palette::Archive } else { Palette::Panel })
        },
    };
    let mut label = String::new();
    push_char(&mut label, mark);
    push_str(&mut label, file_name);
    assert(label@ =~= seq![mark] + file_name@);
    (label, palette)
}

/// The details line of an entry: its mode, link count, owner and group,
/// then ` -> ` and the link's target (`?` when it cannot be read) for a
/// link, or its name.
pub open spec fn entry_details_spec(
    mode: u32,
    nlink: u64,
    user: Seq<char>,
    group: Seq<char>,
    file_name: Seq<char>,
    link: Option<Option<Seq<char>>>,
) -> Seq<char> {
    let head = filemode_spec(mode) + seq![' '] + decimal(nlink as nat) + seq![' '] + user + seq![' '] + group;
    match link {
        Some(Some(t)) => head + " -> "@ + t,
        Some(None) => head + " -> ?"@,
        None => head + seq![' '] + file_name,
    }
}

pub fn entry_details(
    mode: u32,
    nlink: u64,
    user: &str,
    group: &str,
    file_name: &str,
    link: Option<Option<&str>>,
) -> (r: String)
    ensures
        r@ == entry_details_spec(
            mode,
            nlink,
            user@,
            group@,
            file_name@,
            match link {
                Some(Some(t)) => Some(Some(t@)),
                Some(None) => Some(None),
                None => None,
            },
        ),
{
    proof {
        reveal_strlit(" -> ");
        reveal_strlit(" -> ?");
    }
    let mut r = filemode(mode);
    push_char(&mut r, ' ');
    push_decimal_u64(&mut r, nlink);
    push_char(&mut r, ' ');
    push_str(&mut r, user);
    push_char(&mut r, ' ');
    push_str(&mut r, group);
    match link {
        Some(Some(t)) => {
            push_str(&mut r, " -> ");
            push_str(&mut r, t);
        },
        Some(None) => {
            push_str(&mut r, " -> ?");
        },
        None => {
            push_char(&mut r, ' ');
            push_str(&mut r, file_name);
        },
    }
    r
}

/// The size of a device entry: its major and minor numbers packed in one
/// number, shown as `major,minor`.
pub fn device_size(major: u32, minor: u32) -> (r: (u64, String))
    ensures
        r.0 == major as int * 0x1_0000_0000 + minor as int,
        r.1@ == decimal(major as nat) + seq![','] + decimal(minor as nat),
{
    let mut shown = String::new();
    push_decimal_u64(&mut shown, major as u64);
    push_char(&mut shown, ',');
    push_decimal_u64(&mut shown, minor as u64);
    let packed: u64 = ((major as u64) << 32u64) | (minor as u64);
    assert(packed == major as int * 0x1_0000_0000 + minor as int) by (bit_vector)
        requires
            packed == ((major as u64) << 32u64) | (minor as u64),
    ;
    (packed, shown)
}

/// Whether hidden files (names starting with a dot) are listed.
#[derive(Debug, Clone, Copy, PartialEq, Eq, Structural)]
pub enum HiddenFiles {
    Show,
    Hide,
}

/// `SkimMatcherV2::fuzzy_match` with the default configuration: the score
/// of `pattern` as a fuzzy match in `choice`, none when it does not match.
pub uninterp spec fn fuzzy_score(choice: Seq<char>, pattern: Seq<char>) -> Option<i64>;

/// Trusted: calls `SkimMatcherV2::default().fuzzy_match`; the result is the
/// named `fuzzy_score`.
#[verifier::external_body]
fn fuzzy_match(choice: &str, pattern: &str) -> (r: Option<i64>)
    ensures
        r == fuzzy_score(choice@, pattern@),
{
    fuzzy_matcher::skim::SkimMatcherV2::default().fuzzy_match(choice, pattern)
}

/// The entry is listed: not hidden when hidden files are hidden, and matched
/// by the filter (its sort key against the filter's) when there is one.
pub open spec fn is_listed(e: Entry, hidden_files: HiddenFiles, filter_key: Seq<char>) -> bool {
    &&& !(hidden_files == HiddenFiles::Hide && e.key@.len() > 0 && e.key@[0] == '.')
    &&& (filter_key.len() == 0 || fuzzy_score(e.key@, filter_key) is Some)
}

/// The indices of the listed entries, in order.
pub open spec fn listed(list: Seq<Entry>, hidden_files: HiddenFiles, filter_key: Seq<char>) -> Seq<int>
    decreases list.len(),
{
    if list.len() == 0 {
        Seq::empty()
    } else {
        let rest = listed(list.drop_last(), hidden_files, filter_key);
        if is_listed(list.last(), hidden_files, filter_key) {
            rest.push(list.len() - 1)
        } else {
            rest
        }
    }
}

proof fn lemma_listed_prefix(list: Seq<Entry>, h: HiddenFiles, f: Seq<char>, n: int)
    requires
        0 <= n < list.len(),
    ensures
        listed(list.take(n + 1), h, f) == if is_listed(list[n], h, f) {
            listed(list.take(n), h, f).push(n)
        } else {
            listed(list.take(n), h, f)
        },
{
    assert(list.take(n + 1).drop_last() =~= list.take(n));
    assert(list.take(n + 1).last() == list[n]);
}

fn starts_with_dot(s: &String) -> (r: bool)
    ensures
        r == (s@.len() > 0 && s@[0] == '.'),
{
    let v = crate::strings::chars_of(s.as_str());
    v.len() > 0 && v[0] == '.'
}

/// The entries shown: hidden ones left out when hidden files are hidden,
/// and, when the filter is not empty, only those whose sort key matches it.
pub fn filter_file_list(file_list: &[Entry], hidden_files: HiddenFiles, file_filter: &str) -> (r: Vec<Entry>)
    ensures
        ({
            let idx = listed(file_list@, hidden_files, nfkd(case_fold(file_filter@)));
            &&& r@.len() == idx.len()
            &&& forall|i: int| 0 <= i < idx.len() ==> #[trigger] r@[i] == file_list@[idx[i]]
        }),
{
    let filter_key = natsort_key(file_filter);
    let filter_empty = filter_key.as_str().unicode_len() == 0;
    let ghost fk = filter_key@;
    let mut r: Vec<Entry> = Vec::new();
    let mut n: usize = 0;
    assert(file_list@.take(0) =~= Seq::<Entry>::empty());
    while n < file_list.len()
        invariant
            n <= file_list@.len(),
            fk == filter_key@,
            fk == nfkd(case_fold(file_filter@)),
            filter_empty == (fk.len() == 0),
            r@.len() == listed(file_list@.take(n as int), hidden_files, fk).len(),
            forall|i: int|
                0 <= i < r@.len() ==> #[trigger] r@[i]
                    == file_list@[listed(file_list@.take(n as int), hidden_files, fk)[i]],
            forall|i: int|
                0 <= i < listed(file_list@.take(n as int), hidden_files, fk).len() ==> 0
                    <= #[trigger] listed(file_list@.take(n as int), hidden_files, fk)[i] < n,
        decreases file_list.len() - n,
    {
        let e = &file_list[n];
        let hidden = hidden_files == HiddenFiles::Hide && starts_with_dot(&e.key);
        let keep = !hidden && (filter_empty || fuzzy_match(e.key.as_str(), filter_key.as_str()).is_some());
        proof {
            lemma_listed_prefix(file_list@, hidden_files, fk, n as int);
            assert(keep == is_listed(file_list@[n as int], hidden_files, fk));
        }
        if keep {
            r.push(e.duplicate());
        }
        n += 1;
    }
    assert(file_list@.take(n as int) =~= file_list@);
    r
}

/// Whether a sort is ascending or descending.
#[derive(Debug, Clone, Copy, PartialEq, Eq, Structural)]
pub enum SortOrder {
    Normal,
    Reverse,
}

/// What entries are sorted by.
#[derive(Debug, Clone, Copy, PartialEq, Eq, Structural)]
pub enum SortBy {
    Name,
    Extension,
    Date,
    Size,
}

/// `natord::compare`: the natural order of two strings (runs of digits
/// compared as numbers, white space skipped).
pub uninterp spec fn natord_order(a: Seq<char>, b: Seq<char>) -> Ordering;

/// Trusted: calls `natord::compare`; the result is the named `natord_order`.
#[verifier::external_body]
fn natural_order(a: &str, b: &str) -> (r: Ordering)
    ensures
        r == natord_order(a@, b@),
{
    natord::compare(a, b)
}

/// `first`, or `second` when `first` is `Equal` (as `Ordering::then`).
pub open spec fn then_order(first: Ordering, second: Ordering) -> Ordering {
    match first {
        Ordering::Equal => second,
        _ => first,
    }
}

pub open spec fn reverse_order(o: Ordering) -> Ordering {
    match o {
        Ordering::Less => Ordering::Greater,
        Ordering::Equal => Ordering::Equal,
        Ordering::Greater => Ordering::Less,
    }
}

pub open spec fn apply_order(o: Ordering, sort_order: SortOrder) -> Ordering {
    match sort_order {
        SortOrder::Normal => o,
        SortOrder::Reverse => reverse_order(o),
    }
}

/// Directories come before files, whatever the order; among either, `o`.
pub open spec fn dirs_first(a: Entry, b: Entry, o: Ordering) -> Ordering {
    if a.is_dir && !b.is_dir {
        Ordering::Less
    } else if !a.is_dir && b.is_dir {
        Ordering::Greater
    } else {
        o
    }
}

pub open spec fn name_order(a: Entry, b: Entry) -> Ordering {
    then_order(natord_order(a.key@, b.key@), natord_order(a.file_name@, b.file_name@))
}

/// An order on optional values: a missing value comes first.
pub open spec fn option_order<T>(a: Option<T>, b: Option<T>, lt: spec_fn(T, T) -> bool) -> Ordering {
    match (a, b) {
        (Some(x), Some(y)) => if lt(x, y) {
            Ordering::Less
        } else if lt(y, x) {
            Ordering::Greater
        } else {
            Ordering::Equal
        },
        (None, Some(_)) => Ordering::Less,
        (Some(_), None) => Ordering::Greater,
        (None, None) => Ordering::Equal,
    }
}

pub open spec fn sort_by_name_spec(a: Entry, b: Entry, sort_order: SortOrder) -> Ordering {
    dirs_first(a, b, apply_order(name_order(a, b), sort_order))
}

pub open spec fn sort_by_extension_spec(a: Entry, b: Entry, sort_order: SortOrder) -> Ordering {
    dirs_first(
        a,
        b,
        apply_order(
            then_order(natord_order(a.extension@, b.extension@), sort_by_name_spec(a, b, SortOrder::Normal)),
            sort_order,
        ),
    )
}

pub open spec fn sort_by_date_spec(a: Entry, b: Entry, sort_order: SortOrder) -> Ordering {
    dirs_first(
        a,
        b,
        apply_order(
            then_order(
                option_order(a.modified, b.modified, |x: i128, y: i128| x < y),
                sort_by_name_spec(a, b, SortOrder::Normal),
            ),
            sort_order,
        ),
    )
}

pub open spec fn sort_by_size_spec(a: Entry, b: Entry, sort_order: SortOrder) -> Ordering {
    dirs_first(
        a,
        b,
        apply_order(
            then_order(
                option_order(a.size, b.size, |x: u64, y: u64| x < y),
                sort_by_name_spec(a, b, SortOrder::Normal),
            ),
            sort_order,
        ),
    )
}

fn then_exec(first: Ordering, second: Ordering) -> (r: Ordering)
    ensures
        r == then_order(first, second),
{
    match first {
        Ordering::Equal => second,
        _ => first,
    }
}

fn apply_exec(o: Ordering, sort_order: SortOrder) -> (r: Ordering)
    ensures
        r == apply_order(o, sort_order),
{
    match sort_order {
        SortOrder::Normal => o,
        SortOrder::Reverse => match o {
            Ordering::Less => Ordering::Greater,
            Ordering::Equal => Ordering::Equal,
            Ordering::Greater => Ordering::Less,
        },
    }
}

/// Compares by name: directories first, then by sort key and by file name in
/// natural order.
pub fn sort_by_name(a: &Entry, b: &Entry, sort_order: SortOrder) -> (r: Ordering)
    ensures
        r == sort_by_name_spec(*a, *b, sort_order),
{
    if a.is_dir && !b.is_dir {
        Ordering::Less
    } else if !a.is_dir && b.is_dir {
        Ordering::Greater
    } else {
        let o = then_exec(
            natural_order(a.key.as_str(), b.key.as_str()),
            natural_order(a.file_name.as_str(), b.file_name.as_str()),
        );
        apply_exec(o, sort_order)
    }
}

/// Compares by extension in natural order, then by name.
pub fn sort_by_extension(a: &Entry, b: &Entry, sort_order: SortOrder) -> (r: Ordering)
    ensures
        r == sort_by_extension_spec(*a, *b, sort_order),
{
    if a.is_dir && !b.is_dir {
        Ordering::Less
    } else if !a.is_dir && b.is_dir {
        Ordering::Greater
    } else {
        let first = natural_order(a.extension.as_str(), b.extension.as_str());
        let o = match first {
            Ordering::Equal => sort_by_name(a, b, SortOrder::Normal),
            _ => first,
        };
        apply_exec(o, sort_order)
    }
}

fn option_i128(a: Option<i128>, b: Option<i128>) -> (r: Ordering)
    ensures
        r == option_order(a, b, |x: i128, y: i128| x < y),
{
    match (a, b) {
        (Some(x), Some(y)) => if x < y {
            Ordering::Less
        } else if y < x {
            Ordering::Greater
        } else {
            Ordering::Equal
        },
        (None, Some(_)) => Ordering::Less,
        (Some(_), None) => Ordering::Greater,
        (None, None) => Ordering::Equal,
    }
}

fn option_u64(a: Option<u64>, b: Option<u64>) -> (r: Ordering)
    ensures
        r == option_order(a, b, |x: u64, y: u64| x < y),
{
    match (a, b) {
        (Some(x), Some(y)) => if x < y {
            Ordering::Less
        } else if y < x {
            Ordering::Greater
        } else {
            Ordering::Equal
        },
        (None, Some(_)) => Ordering::Less,
        (Some(_), None) => Ordering::Greater,
        (None, None) => Ordering::Equal,
    }
}

/// Compares by modification time (unknown times first), then by name.
pub fn sort_by_date(a: &Entry, b: &Entry, sort_order: SortOrder) -> (r: Ordering)
    ensures
        r == sort_by_date_spec(*a, *b, sort_order),
{
    if a.is_dir && !b.is_dir {
        Ordering::Less
    } else if !a.is_dir && b.is_dir {
        Ordering::Greater
    } else {
        let first = option_i128(a.modified, b.modified);
        let o = match first {
            Ordering::Equal => sort_by_name(a, b, SortOrder::Normal),
            _ => first,
        };
        apply_exec(o, sort_order)
    }
}

/// Compares by size (unknown sizes first), then by name.
pub fn sort_by_size(a: &Entry, b: &Entry, sort_order: SortOrder) -> (r: Ordering)
    ensures
        r == sort_by_size_spec(*a, *b, sort_order),
{
    if a.is_dir && !b.is_dir {
        Ordering::Less
    } else if !a.is_dir && b.is_dir {
        Ordering::Greater
    } else {
        let first = option_u64(a.size, b.size);
        let o = match first {
            Ordering::Equal => sort_by_name(a, b, SortOrder::Normal),
            _ => first,
        };
        apply_exec(o, sort_order)
    }
}

/// Compares two entries by the given sort key (what the comparator chosen by
/// `sort_by_function` does).
pub fn sort_by_function(sort_by: SortBy, a: &Entry, b: &Entry, sort_order: SortOrder) -> (r: Ordering)
    ensures
        r == match sort_by {
            SortBy::Name => sort_by_name_spec(*a, *b, sort_order),
            SortBy::Extension => sort_by_extension_spec(*a, *b, sort_order),
            SortBy::Date => sort_by_date_spec(*a, *b, sort_order),
            SortBy::Size => sort_by_size_spec(*a, *b, sort_order),
        },
{
    match sort_by {
        SortBy::Name => sort_by_name(a, b, sort_order),
        SortBy::Extension => sort_by_extension(a, b, sort_order),
        SortBy::Date => sort_by_date(a, b, sort_order),
        SortBy::Size => sort_by_size(a, b, sort_order),
    }
}

/// Directories always come before files, in either order.
pub proof fn law_directories_first(a: Entry, b: Entry, sort_by: SortBy, sort_order: SortOrder)
    requires
        a.is_dir && !b.is_dir,
    ensures
        sort_by_name_spec(a, b, sort_order) == Ordering::Less,
        sort_by_extension_spec(a, b, sort_order) == Ordering::Less,
        sort_by_date_spec(a, b, sort_order) == Ordering::Less,
        sort_by_size_spec(a, b, sort_order) == Ordering::Less,
        sort_by_name_spec(b, a, sort_order) == Ordering::Greater,
{
}

/// Reversing the order reverses the comparison, except that directories stay
/// first.
pub proof fn law_reverse_order(a: Entry, b: Entry)
    requires
        a.is_dir == b.is_dir,
    ensures
        sort_by_name_spec(a, b, SortOrder::Reverse) == reverse_order(sort_by_name_spec(a, b, SortOrder::Normal)),
        sort_by_size_spec(a, b, SortOrder::Reverse) == reverse_order(sort_by_size_spec(a, b, SortOrder::Normal)),
        sort_by_date_spec(a, b, SortOrder::Reverse) == reverse_order(sort_by_date_spec(a, b, SortOrder::Normal)),
        sort_by_extension_spec(a, b, SortOrder::Reverse) == reverse_order(
            sort_by_extension_spec(a, b, SortOrder::Normal),
        ),
{
}


/// Where a symbolic link at `file` with the target `target` leads: the
/// target itself when absolute, else the target under the link's directory
/// (or the root), cleaned either way.
pub open spec fn link_target_spec(file: Seq<char>, target: Seq<char>) -> Seq<char> {
    if crate::jobs::is_absolute_spec(target) {
        crate::paths::path_clean(target)
    } else {
        crate::paths::path_clean(
            crate::paths::path_join(
                match crate::paths::path_parent(file) {
                    Some(p) => p,
                    None => "/"@,
                },
                target,
            ),
        )
    }
}

pub fn resolve_link_target(file: &str, target: &str) -> (r: String)
    ensures
        r@ == link_target_spec(file@, target@),
{
    proof {
        reveal_strlit("/");
    }
    if crate::jobs::is_absolute(target) {
        crate::paths::clean(target)
    } else {
        let dir = match crate::paths::parent(file) {
            Some(p) => p,
            None => "/".to_string(),
        };
        let joined = crate::paths::join(dir.as_str(), target);
        crate::paths::clean(joined.as_str())
    }
}


/// The size shown for a directory: how many entries it holds, or `?` when
/// it could not be read.
pub fn directory_size(count: Option<u64>) -> (r: (Option<u64>, String))
    ensures
        r.0 == count,
        r.1@ == match count {
            Some(n) => decimal(n as nat),
            None => "?"@,
        },
{
    proof {
        reveal_strlit("?");
    }
    match count {
        Some(n) => {
            let mut s = String::new();
            push_decimal_u64(&mut s, n);
            assert(s@ =~= decimal(n as nat));
            (Some(n), s)
        },
        None => (None, "?".to_string()),
    }
}


/// How `sort_by` in `sort_order` compares two entries.
pub open spec fn compare_entries(sort_by: SortBy, a: Entry, b: Entry, sort_order: SortOrder) -> Ordering {
    match sort_by {
        SortBy::Name => sort_by_name_spec(a, b, sort_order),
        SortBy::Extension => sort_by_extension_spec(a, b, sort_order),
        SortBy::Date => sort_by_date_spec(a, b, sort_order),
        SortBy::Size => sort_by_size_spec(a, b, sort_order),
    }
}

/// `a` may stand before `b`: the comparison does not put it after `b`.
pub open spec fn sorts_before(sort_by: SortBy, sort_order: SortOrder, a: Entry, b: Entry) -> bool {
    compare_entries(sort_by, a, b, sort_order) != Ordering::Greater
}

/// The comparison is a total order on the entries of `s`: it answers the
/// converse for the swapped pair, and it is transitive.  For the names it
/// rests on `natord`, which does not document this.
pub open spec fn total_on(s: Seq<Entry>, sort_by: SortBy, sort_order: SortOrder) -> bool {
    &&& forall|a: Entry, b: Entry|
        #![trigger s.contains(a), s.contains(b)]
        s.contains(a) && s.contains(b) ==> compare_entries(sort_by, a, b, sort_order) == reverse_order(
            compare_entries(sort_by, b, a, sort_order),
        )
    &&& forall|a: Entry, b: Entry, c: Entry|
        #![trigger s.contains(a), s.contains(b), s.contains(c)]
        s.contains(a) && s.contains(b) && s.contains(c) && sorts_before(sort_by, sort_order, a, b)
            && sorts_before(sort_by, sort_order, b, c) ==> sorts_before(sort_by, sort_order, a, c)
}

/// No entry of `s` stands after one that the comparison puts after it.
pub open spec fn entries_sorted(s: Seq<Entry>, sort_by: SortBy, sort_order: SortOrder) -> bool {
    forall|i: int, j: int| 0 <= i < j < s.len() ==> sorts_before(sort_by, sort_order, #[trigger] s[i], #[trigger] s[j])
}

/// `shown` holds the entries of `list`, in the order that `sort_by` and
/// `sort_order` give wherever that order is a total order on them.
pub open spec fn in_sort_order(shown: Seq<Entry>, list: Seq<Entry>, sort_by: SortBy, sort_order: SortOrder) -> bool {
    &&& shown.to_multiset() == list.to_multiset()
    &&& total_on(list, sort_by, sort_order) ==> entries_sorted(shown, sort_by, sort_order)
}

/// In a sorted list, whatever the sort key and order, no file stands before
/// a directory.
pub proof fn law_sorted_directories_first(s: Seq<Entry>, sort_by: SortBy, sort_order: SortOrder, i: int, j: int)
    requires
        entries_sorted(s, sort_by, sort_order),
        0 <= i < j < s.len(),
        s[j].is_dir,
    ensures
        s[i].is_dir,
{
    if !s[i].is_dir {
        assert(sorts_before(sort_by, sort_order, s[i], s[j]));
    }
}

proof fn lemma_total_on_within(s: Seq<Entry>, t: Seq<Entry>, sort_by: SortBy, sort_order: SortOrder)
    requires
        total_on(s, sort_by, sort_order),
        forall|x: Entry| t.contains(x) ==> s.contains(x),
    ensures
        total_on(t, sort_by, sort_order),
{
    assert forall|a: Entry, b: Entry| t.contains(a) && t.contains(b) implies compare_entries(sort_by, a, b, sort_order)
        == reverse_order(compare_entries(sort_by, b, a, sort_order)) by {
        assert(s.contains(a) && s.contains(b));
    }
    assert forall|a: Entry, b: Entry, c: Entry|
        t.contains(a) && t.contains(b) && t.contains(c) && sorts_before(sort_by, sort_order, a, b)
            && sorts_before(sort_by, sort_order, b, c) implies sorts_before(sort_by, sort_order, a, c) by {
        assert(s.contains(a) && s.contains(b) && s.contains(c));
    }
}

proof fn lemma_same_entries(s: Seq<Entry>, t: Seq<Entry>)
    requires
        s.to_multiset() == t.to_multiset(),
    ensures
        forall|x: Entry| t.contains(x) ==> s.contains(x),
{
    broadcast use vstd::seq_lib::group_to_multiset_ensures;

    assert forall|x: Entry| t.contains(x) implies s.contains(x) by {
        assert(t.to_multiset().count(x) > 0);
    }
}

/// Under a total order, an entry that may not stand before another may
/// stand after it.
proof fn lemma_converse(s: Seq<Entry>, sort_by: SortBy, sort_order: SortOrder, a: Entry, b: Entry)
    requires
        total_on(s, sort_by, sort_order),
        s.contains(a),
        s.contains(b),
        !sorts_before(sort_by, sort_order, a, b),
    ensures
        sorts_before(sort_by, sort_order, b, a),
{
    assert(compare_entries(sort_by, a, b, sort_order) == reverse_order(compare_entries(sort_by, b, a, sort_order)));
}

/// Whether `sort_by` in `sort_order` lets `a` stand before `b`.
fn entry_sorts_before(sort_by: SortBy, a: &Entry, b: &Entry, sort_order: SortOrder) -> (r: bool)
    ensures
        r == sorts_before(sort_by, sort_order, *a, *b),
{
    match sort_by_function(sort_by, a, b, sort_order) {
        Ordering::Greater => false,
        _ => true,
    }
}

/// A copy of the entries of `v` from `lo` up to `hi`.
fn copy_entries(v: &Vec<Entry>, lo: usize, hi: usize) -> (r: Vec<Entry>)
    requires
        lo <= hi <= v@.len(),
    ensures
        r@ == v@.subrange(lo as int, hi as int),
{
    let mut r: Vec<Entry> = Vec::new();
    let mut i: usize = lo;
    while i < hi
        invariant
            lo <= i <= hi <= v@.len(),
            r@ == v@.subrange(lo as int, i as int),
        decreases hi - i,
    {
        r.push(v[i].duplicate());
        assert(v@.subrange(lo as int, i + 1) =~= v@.subrange(lo as int, i as int).push(v@[i as int]));
        i += 1;
    }
    r
}

/// The entries of `a` and `b` in one list, taking from `a` while its next
/// entry may stand before the next of `b`.
fn merge_entries(a: Vec<Entry>, b: Vec<Entry>, sort_by: SortBy, sort_order: SortOrder) -> (r: Vec<Entry>)
    ensures
        r@.to_multiset() == (a@ + b@).to_multiset(),
        total_on(a@ + b@, sort_by, sort_order) && entries_sorted(a@, sort_by, sort_order) && entries_sorted(
            b@,
            sort_by,
            sort_order,
        ) ==> entries_sorted(r@, sort_by, sort_order),
{
    broadcast use vstd::seq_lib::group_to_multiset_ensures;

    let ghost all = a@ + b@;
    let ghost ok = total_on(all, sort_by, sort_order) && entries_sorted(a@, sort_by, sort_order) && entries_sorted(
        b@,
        sort_by,
        sort_order,
    );
    let mut r: Vec<Entry> = Vec::new();
    let mut i: usize = 0;
    let mut j: usize = 0;
    assert(a@.take(0).to_multiset() =~= vstd::multiset::Multiset::empty());
    assert(b@.take(0).to_multiset() =~= vstd::multiset::Multiset::empty());
    while i < a.len() || j < b.len()
        invariant
            i <= a@.len(),
            j <= b@.len(),
            all == a@ + b@,
            ok == (total_on(all, sort_by, sort_order) && entries_sorted(a@, sort_by, sort_order)
                && entries_sorted(b@, sort_by, sort_order)),
            r@.to_multiset() == a@.take(i as int).to_multiset().add(b@.take(j as int).to_multiset()),
            forall|k: int| 0 <= k < r@.len() ==> all.contains(#[trigger] r@[k]),
            ok ==> entries_sorted(r@, sort_by, sort_order),
            ok ==> forall|k: int|
                0 <= k < r@.len() && i < a@.len() ==> sorts_before(sort_by, sort_order, #[trigger] r@[k], a@[i as int]),
            ok ==> forall|k: int|
                0 <= k < r@.len() && j < b@.len() ==> sorts_before(sort_by, sort_order, #[trigger] r@[k], b@[j as int]),
        decreases a@.len() + b@.len() - i - j,
    {
        let take_a = if i < a.len() && j < b.len() {
            entry_sorts_before(sort_by, &a[i], &b[j], sort_order)
        } else {
            i < a.len()
        };
        let ghost r0 = r@;
        if take_a {
            let x = a[i].duplicate();
            proof {
                assert(all.contains(x)) by {
                    assert(all[i as int] == x);
                }
                assert(a@.take(i + 1) =~= a@.take(i as int).push(x));
                if ok {
                    if j < b@.len() {
                        assert(all.contains(b@[j as int])) by {
                            assert(all[a@.len() + j] == b@[j as int]);
                        }
                        if i < a@.len() && j < b@.len() {
                        }
                    }
                    if i + 1 < a@.len() {
                        assert(sorts_before(sort_by, sort_order, a@[i as int], a@[i + 1]));
                        assert(all.contains(a@[i + 1])) by {
                            assert(all[i + 1] == a@[i + 1]);
                        }
                        assert forall|k: int| 0 <= k < r0.len() implies sorts_before(
                            sort_by,
                            sort_order,
                            r0[k],
                            a@[i + 1],
                        ) by {
                            assert(all.contains(r0[k]));
                            assert(sorts_before(sort_by, sort_order, r0[k], a@[i as int]));
                        }
                    }
                }
            }
            r.push(x);
            i += 1;
            proof {
                assert(r@ =~= r0.push(a@[i - 1]));
                assert(a@.take(i as int) =~= a@.take(i - 1).push(a@[i - 1]));
                vstd::seq_lib::to_multiset_build(r0, a@[i - 1]);
                vstd::seq_lib::to_multiset_build(a@.take(i - 1), a@[i - 1]);
                assert(r@.to_multiset() =~= a@.take(i as int).to_multiset().add(b@.take(j as int).to_multiset())) by {
                    broadcast use vstd::multiset::group_multiset_axioms;
                }
                if ok {
                    assert forall|p: int, q: int| 0 <= p < q < r@.len() implies sorts_before(
                        sort_by,
                        sort_order,
                        #[trigger] r@[p],
                        #[trigger] r@[q],
                    ) by {
                        if q < r0.len() {
                            assert(r0[p] == r@[p] && r0[q] == r@[q]);
                        } else {
                            assert(r0[p] == r@[p]);
                            assert(sorts_before(sort_by, sort_order, r0[p], a@[i - 1]));
                        }
                    }
                    assert forall|k: int| 0 <= k < r@.len() && i < a@.len() implies sorts_before(
                        sort_by,
                        sort_order,
                        #[trigger] r@[k],
                        a@[i as int],
                    ) by {
                        if k < r0.len() {
                            assert(r0[k] == r@[k]);
                        } else {
                            assert(a@[i - 1] == r@[k]);
                        }
                    }
                    assert forall|k: int| 0 <= k < r@.len() && j < b@.len() implies sorts_before(
                        sort_by,
                        sort_order,
                        #[trigger] r@[k],
                        b@[j as int],
                    ) by {
                        if k < r0.len() {
                            assert(r0[k] == r@[k]);
                        } else {
                            assert(a@[i - 1] == r@[k]);
                        }
                    }
                }
            }
        } else {
            let x = b[j].duplicate();
            proof {
                assert(all.contains(x)) by {
                    assert(all[a@.len() + j] == x);
                }
                assert(b@.take(j + 1) =~= b@.take(j as int).push(x));
                if ok {
                    if i < a@.len() {
                        assert(all.contains(a@[i as int])) by {
                            assert(all[i as int] == a@[i as int]);
                        }
                        lemma_converse(all, sort_by, sort_order, a@[i as int], x);
                    }
                    if j + 1 < b@.len() {
                        assert(sorts_before(sort_by, sort_order, b@[j as int], b@[j + 1]));
                        assert(all.contains(b@[j + 1])) by {
                            assert(all[a@.len() + j + 1] == b@[j + 1]);
                        }
                        assert forall|k: int| 0 <= k < r0.len() implies sorts_before(
                            sort_by,
                            sort_order,
                            r0[k],
                            b@[j + 1],
                        ) by {
                            assert(all.contains(r0[k]));
                            assert(sorts_before(sort_by, sort_order, r0[k], b@[j as int]));
                        }
                    }
                }
            }
            r.push(x);
            j += 1;
            proof {
                assert(r@ =~= r0.push(b@[j - 1]));
                assert(b@.take(j as int) =~= b@.take(j - 1).push(b@[j - 1]));
                vstd::seq_lib::to_multiset_build(r0, b@[j - 1]);
                vstd::seq_lib::to_multiset_build(b@.take(j - 1), b@[j - 1]);
                assert(r@.to_multiset() =~= a@.take(i as int).to_multiset().add(b@.take(j as int).to_multiset())) by {
                    broadcast use vstd::multiset::group_multiset_axioms;
                }
                if ok {
                    assert forall|p: int, q: int| 0 <= p < q < r@.len() implies sorts_before(
                        sort_by,
                        sort_order,
                        #[trigger] r@[p],
                        #[trigger] r@[q],
                    ) by {
                        if q < r0.len() {
                            assert(r0[p] == r@[p] && r0[q] == r@[q]);
                        } else {
                            assert(r0[p] == r@[p]);
                            assert(sorts_before(sort_by, sort_order, r0[p], b@[j - 1]));
                        }
                    }
                    assert forall|k: int| 0 <= k < r@.len() && i < a@.len() implies sorts_before(
                        sort_by,
                        sort_order,
                        #[trigger] r@[k],
                        a@[i as int],
                    ) by {
                        if k < r0.len() {
                            assert(r0[k] == r@[k]);
                        } else {
                            assert(b@[j - 1] == r@[k]);
                        }
                    }
                    assert forall|k: int| 0 <= k < r@.len() && j < b@.len() implies sorts_before(
                        sort_by,
                        sort_order,
                        #[trigger] r@[k],
                        b@[j as int],
                    ) by {
                        if k < r0.len() {
                            assert(r0[k] == r@[k]);
                        } else {
                            assert(b@[j - 1] == r@[k]);
                        }
                    }
                }
            }
        }
    }
    proof {
        assert(a@.take(i as int) =~= a@);
        assert(b@.take(j as int) =~= b@);
        vstd::seq_lib::lemma_multiset_commutative(a@, b@);
    }
    r
}

/// The entries of `v` sorted by `sort_by` in `sort_order` (a merge sort).
pub fn sort_entries_by(v: &Vec<Entry>, sort_by: SortBy, sort_order: SortOrder) -> (r: Vec<Entry>)
    ensures
        in_sort_order(r@, v@, sort_by, sort_order),
    decreases v@.len(),
{
    if v.len() <= 1 {
        let r = copy_entries(v, 0, v.len());
        assert(r@ =~= v@);
        return r;
    }
    let mid = v.len() / 2;
    let left = copy_entries(v, 0, mid);
    let right = copy_entries(v, mid, v.len());
    let l = sort_entries_by(&left, sort_by, sort_order);
    let r = sort_entries_by(&right, sort_by, sort_order);
    proof {
        assert(v@ =~= left@ + right@);
        vstd::seq_lib::lemma_multiset_commutative(left@, right@);
        vstd::seq_lib::lemma_multiset_commutative(l@, r@);
        if total_on(v@, sort_by, sort_order) {
            lemma_same_entries(v@, l@ + r@);
            lemma_total_on_within(v@, l@ + r@, sort_by, sort_order);
            lemma_same_entries(left@, l@);
            lemma_same_entries(right@, r@);
            assert forall|x: Entry| left@.contains(x) implies v@.contains(x) by {
                let k = choose|k: int| 0 <= k < left@.len() && left@[k] == x;
                assert(v@[k] == x);
            }
            assert forall|x: Entry| right@.contains(x) implies v@.contains(x) by {
                let k = choose|k: int| 0 <= k < right@.len() && right@[k] == x;
                assert(v@[mid + k] == x);
            }
            lemma_total_on_within(v@, left@, sort_by, sort_order);
            lemma_total_on_within(v@, right@, sort_by, sort_order);
        }
    }
    merge_entries(l, r, sort_by, sort_order)
}

/// Sorting by date puts the older of two files (or two directories) first,
/// a file of unknown date before one of known date, and the reverse order
/// turns this around.
pub proof fn law_sort_by_date_older_first(a: Entry, b: Entry, x: i128, y: i128)
    requires
        a.is_dir == b.is_dir,
        a.modified == Some(x),
        b.modified == Some(y),
        x < y,
    ensures
        compare_entries(SortBy::Date, a, b, SortOrder::Normal) == Ordering::Less,
        compare_entries(SortBy::Date, b, a, SortOrder::Normal) == Ordering::Greater,
        compare_entries(SortBy::Date, a, b, SortOrder::Reverse) == Ordering::Greater,
        compare_entries(SortBy::Date, b, a, SortOrder::Reverse) == Ordering::Less,
{
}

/// A file whose date is unknown sorts before one whose date is known.
pub proof fn law_sort_by_date_unknown_first(a: Entry, b: Entry)
    requires
        a.is_dir == b.is_dir,
        a.modified is None,
        b.modified is Some,
    ensures
        compare_entries(SortBy::Date, a, b, SortOrder::Normal) == Ordering::Less,
        compare_entries(SortBy::Date, b, a, SortOrder::Normal) == Ordering::Greater,
{
}

/// Sorting by size puts the smaller of two entries first, an entry of
/// unknown size before one of known size, and the reverse order turns this
/// around.
pub proof fn law_sort_by_size_smaller_first(a: Entry, b: Entry, x: u64, y: u64)
    requires
        a.is_dir == b.is_dir,
        a.size == Some(x),
        b.size == Some(y),
        x < y,
    ensures
        compare_entries(SortBy::Size, a, b, SortOrder::Normal) == Ordering::Less,
        compare_entries(SortBy::Size, b, a, SortOrder::Normal) == Ordering::Greater,
        compare_entries(SortBy::Size, a, b, SortOrder::Reverse) == Ordering::Greater,
        compare_entries(SortBy::Size, b, a, SortOrder::Reverse) == Ordering::Less,
{
}

/// An entry whose size is unknown sorts before one whose size is known.
pub proof fn law_sort_by_size_unknown_first(a: Entry, b: Entry)
    requires
        a.is_dir == b.is_dir,
        a.size is None,
        b.size is Some,
    ensures
        compare_entries(SortBy::Size, a, b, SortOrder::Normal) == Ordering::Less,
        compare_entries(SortBy::Size, b, a, SortOrder::Normal) == Ordering::Greater,
{
}

/// Sorting by name follows the natural order of the names' sort keys
/// (then of the names themselves), reversed in the reverse order; so do
/// the date and size orders between entries of equal date or size.
pub proof fn law_sort_by_name_natural(a: Entry, b: Entry)
    requires
        a.is_dir == b.is_dir,
        natord_order(a.key@, b.key@) == Ordering::Less,
    ensures
        compare_entries(SortBy::Name, a, b, SortOrder::Normal) == Ordering::Less,
        compare_entries(SortBy::Name, a, b, SortOrder::Reverse) == Ordering::Greater,
        a.modified == b.modified ==> compare_entries(SortBy::Date, a, b, SortOrder::Normal) == Ordering::Less,
        a.size == b.size ==> compare_entries(SortBy::Size, a, b, SortOrder::Normal) == Ordering::Less,
{
}

/// Sorting by extension follows the natural order of the extensions first,
/// reversed in the reverse order.
pub proof fn law_sort_by_extension_natural(a: Entry, b: Entry)
    requires
        a.is_dir == b.is_dir,
        natord_order(a.extension@, b.extension@) == Ordering::Less,
    ensures
        compare_entries(SortBy::Extension, a, b, SortOrder::Normal) == Ordering::Less,
        compare_entries(SortBy::Extension, a, b, SortOrder::Reverse) == Ordering::Greater,
{
}

/// With hidden files hidden, no entry whose sort key starts with a dot is
/// listed, whatever the filter; and every entry listed is one of the list.
pub proof fn law_hidden_stay_hidden(list: Seq<Entry>, filter_key: Seq<char>, i: int)
    requires
        0 <= i < listed(list, HiddenFiles::Hide, filter_key).len(),
    ensures
        ({
            let k = listed(list, HiddenFiles::Hide, filter_key)[i];
            &&& 0 <= k < list.len()
            &&& !(list[k].key@.len() > 0 && list[k].key@[0] == '.')
        }),
    decreases list.len(),
{
    let rest = listed(list.drop_last(), HiddenFiles::Hide, filter_key);
    if i < rest.len() {
        law_hidden_stay_hidden(list.drop_last(), filter_key, i);
        let k = rest[i];
        assert(list.drop_last()[k] == list[k]);
    }
}

/// Whatever the hidden-file setting, an entry is listed under a non-empty
/// filter only when the filter matches its sort key.
pub proof fn law_filter_matches(list: Seq<Entry>, hidden_files: HiddenFiles, filter_key: Seq<char>, i: int)
    requires
        filter_key.len() > 0,
        0 <= i < listed(list, hidden_files, filter_key).len(),
    ensures
        ({
            let k = listed(list, hidden_files, filter_key)[i];
            &&& 0 <= k < list.len()
            &&& fuzzy_score(list[k].key@, filter_key) is Some
        }),
    decreases list.len(),
{
    let rest = listed(list.drop_last(), hidden_files, filter_key);
    if i < rest.len() {
        law_filter_matches(list.drop_last(), hidden_files, filter_key, i);
        let k = rest[i];
        assert(list.drop_last()[k] == list[k]);
    }
}

/// Every entry that is not hidden and that the filter matches is listed.
pub proof fn law_listed_complete(list: Seq<Entry>, hidden_files: HiddenFiles, filter_key: Seq<char>, k: int)
    requires
        0 <= k < list.len(),
        !(hidden_files == HiddenFiles::Hide && list[k].key@.len() > 0 && list[k].key@[0] == '.'),
        filter_key.len() == 0 || fuzzy_score(list[k].key@, filter_key) is Some,
    ensures
        exists|i: int| 0 <= i < listed(list, hidden_files, filter_key).len() && listed(list, hidden_files, filter_key)[i] == k,
    decreases list.len(),
{
    let rest = listed(list.drop_last(), hidden_files, filter_key);
    let all = listed(list, hidden_files, filter_key);
    if k < list.len() - 1 {
        assert(list.drop_last()[k] == list[k]);
        law_listed_complete(list.drop_last(), hidden_files, filter_key, k);
        let i = choose|i: int| 0 <= i < rest.len() && rest[i] == k;
        if is_listed(list.last(), hidden_files, filter_key) {
            assert(all == rest.push(list.len() - 1));
            assert(all[i] == k);
        } else {
            assert(all == rest);
            assert(all[i] == k);
        }
    } else {
        assert(list.last() == list[k]);
        assert(all == rest.push(list.len() - 1));
        assert(all[rest.len() as int] == k);
    }
}

} // verus!
