//! The file panel: the shown entries, the cursor on them, the first line in
//! view, the tagged entries, and what each key does to them.  Reading
//! directories, running programs and drawing are the caller's; a key gives
//! back the action the caller carries out.

use vstd::prelude::*;
use crate::bookmarks::{bookmark_key, is_bookmark_key};
use crate::archive_mounter::{remap, ArchiveMounter, Mounts};
use crate::entry::{
    filter_file_list, is_archive_extension, is_archive_extension_spec, listed, in_sort_order, sort_entries_by,
    Entry, HiddenFiles, SortBy, SortOrder,
};
use crate::fnmatch::{regex_matches, RegexMatcher};
use crate::names::{case_fold, nfkd};
use crate::names::{decimal, push_decimal_u64, tar_stem, tar_stem_spec, tar_suffix, tar_suffix_spec};
use crate::paths::{paths_match, same_path};
use crate::strings::{chars_of, push_char, push_str};
use vstd::utf8::encode_utf8;
use crate::text_view::{clamp_first_line, clamp_first_line_spec, clamp_list_cursor};

verus! {

broadcast use vstd::string::group_string_axioms;

/// The cursor of a list of `len` entries moved to `pos`, kept on an entry.
pub open spec fn clamp_cursor_spec(pos: int, len: int) -> int {
    if len <= 0 {
        0
    } else if pos < len {
        pos
    } else {
        len - 1
    }
}

/// `a - b`, or 0 below zero (as `usize::saturating_sub`).
pub open spec fn sat_sub(a: int, b: int) -> int {
    if a >= b { a - b } else { 0 }
}

/// `a + b`, or `usize::MAX` above it (as `usize::saturating_add`).
pub open spec fn sat_add(a: int, b: int) -> int {
    if a + b <= usize::MAX { a + b } else { usize::MAX as int }
}


/// The entry stands for the file at `file`: entries are told apart by their
/// paths.
pub open spec fn names_file(e: Entry, file: Seq<char>) -> bool {
    same_path(e.file@, file)
}

/// The index of the first of `tagged` from `i` on that stands for `file`.
pub open spec fn tag_position_from(tagged: Seq<Entry>, file: Seq<char>, i: int) -> Option<int>
    decreases tagged.len() - i,
{
    if i < 0 || i >= tagged.len() {
        None
    } else if names_file(tagged[i], file) {
        Some(i)
    } else {
        tag_position_from(tagged, file, i + 1)
    }
}

/// The index of the first tagged entry that stands for `file`.
pub open spec fn tag_position(tagged: Seq<Entry>, file: Seq<char>) -> Option<int> {
    tag_position_from(tagged, file, 0)
}

/// `file` is tagged.
pub open spec fn is_tagged(tagged: Seq<Entry>, file: Seq<char>) -> bool {
    tag_position(tagged, file) is Some
}

/// The sequence without the element at `i`, the last one taking its place
/// (as `Vec::swap_remove`).
pub open spec fn swap_removed(s: Seq<Entry>, i: int) -> Seq<Entry> {
    s.update(i, s.last()).drop_last()
}

/// What is done to the tags of an entry.
#[derive(Debug, Clone, Copy, PartialEq, Eq, Structural)]
pub enum TagOp {
    /// Untag it when tagged, tag it otherwise.
    Toggle,
    /// Tag it unless it is tagged.
    Tag,
    /// Untag it when tagged.
    Untag,
}

/// The tags after `op` on the entry `e`.
pub open spec fn tag_op(op: TagOp, tagged: Seq<Entry>, e: Entry) -> Seq<Entry> {
    match (op, tag_position(tagged, e.file@)) {
        (TagOp::Toggle, Some(i)) => swap_removed(tagged, i),
        (TagOp::Toggle, None) => tagged.push(e),
        (TagOp::Tag, Some(_)) => tagged,
        (TagOp::Tag, None) => tagged.push(e),
        (TagOp::Untag, Some(i)) => swap_removed(tagged, i),
        (TagOp::Untag, None) => tagged,
    }
}

/// The tags after `op` on each of `es`, first to last.
pub open spec fn tag_each(op: TagOp, tagged: Seq<Entry>, es: Seq<Entry>) -> Seq<Entry>
    decreases es.len(),
{
    if es.len() == 0 {
        tagged
    } else {
        tag_op(op, tag_each(op, tagged, es.drop_last()), es.last())
    }
}

proof fn lemma_position_from_bounds(tagged: Seq<Entry>, file: Seq<char>, i: int)
    ensures
        tag_position_from(tagged, file, i) matches Some(j) ==> i <= j < tagged.len()
            && names_file(tagged[j], file),
    decreases tagged.len() - i,
{
    if 0 <= i < tagged.len() && !names_file(tagged[i], file) {
        lemma_position_from_bounds(tagged, file, i + 1);
    }
}

/// The index of the first of `tagged` that stands for `file`.
fn position_of(tagged: &Vec<Entry>, file: &str) -> (r: Option<usize>)
    ensures
        match r {
            Some(i) => tag_position(tagged@, file@) == Some(i as int) && i < tagged@.len(),
            None => tag_position(tagged@, file@) is None,
        },
{
    let mut i: usize = 0;
    while i < tagged.len()
        invariant
            i <= tagged@.len(),
            tag_position(tagged@, file@) == tag_position_from(tagged@, file@, i as int),
        decreases tagged.len() - i,
    {
        if paths_match(tagged[i].file.as_str(), file) {
            return Some(i);
        }
        i += 1;
    }
    None
}


/// A key pressed in the panel.
#[derive(Debug, Clone, Copy, PartialEq, Eq, Structural)]
pub enum PanelKey {
    Char(char),
    Ctrl(char),
    F(u8),
    Left,
    Right,
    Up,
    Down,
    Home,
    End,
    CtrlHome,
    CtrlEnd,
    PageUp,
    PageDown,
    Insert,
    Backspace,
    Other,
}

/// What a key asks of the panel.
#[derive(Debug, Clone, Copy, PartialEq, Eq, Structural)]
pub enum Command {
    Unhandled,
    /// After `` ` ``: back to the previous directory.
    ChdirOldCwd,
    /// After `` ` ``: to the bookmarked directory.
    GotoBookmark(char),
    /// After `m`: bookmark the current directory.
    SetBookmark(char),
    /// After `s`: sort the entries.
    Sort(SortBy, SortOrder),
    /// After `c` (`c` or `w`): rename, starting from an empty name.
    RenameEmpty,
    /// After `c` (`e`): rename, starting from the suffix.
    RenameSuffix,
    /// Wait for the key after a leader: the leader kept, and the key shown.
    Leader(char, char),
    /// Wait for the key of a bookmark to set.
    BookmarkLeader,
    ChdirParent,
    Open,
    Mount,
    Execute,
    Up,
    Down,
    Home,
    End,
    PageUp,
    PageDown,
    View,
    Edit,
    /// Change the tags of the entry under the cursor, then move down.
    TagAndDown(TagOp),
    /// Change the tags of each shown entry.
    TagShown(TagOp),
    PromptTagGlob,
    PromptUntagGlob,
    Reload,
    ToggleHidden,
    PromptFileFilter,
    PromptMkdir,
    /// Rename, starting from an empty name.
    RenameNew,
    /// Rename, starting from the name, cursor at its start.
    RenameName,
    /// Rename, starting from the name, cursor before its suffix.
    RenameStem,
    /// Rename, starting from the name, cursor at its end.
    RenameEnd,
    PromptShell,
    Delete,
    Copy,
    Move,
    Fzf,
}

/// What a key does after the leader `leader`.
pub open spec fn leader_command(leader: char, key: PanelKey) -> Command {
    match key {
        PanelKey::Char(c) => if leader == '`' {
            if c == '\'' || c == '`' {
                Command::ChdirOldCwd
            } else if is_bookmark_key(c) {
                Command::GotoBookmark(c)
            } else {
                Command::Unhandled
            }
        } else if leader == 'm' {
            if is_bookmark_key(c) {
                Command::SetBookmark(c)
            } else {
                Command::Unhandled
            }
        } else if leader == 's' {
            if c == 'n' {
                Command::Sort(SortBy::Name, SortOrder::Normal)
            } else if c == 'N' {
                Command::Sort(SortBy::Name, SortOrder::Reverse)
            } else if c == 'e' {
                Command::Sort(SortBy::Extension, SortOrder::Normal)
            } else if c == 'E' {
                Command::Sort(SortBy::Extension, SortOrder::Reverse)
            } else if c == 'd' {
                Command::Sort(SortBy::Date, SortOrder::Normal)
            } else if c == 'D' {
                Command::Sort(SortBy::Date, SortOrder::Reverse)
            } else if c == 's' {
                Command::Sort(SortBy::Size, SortOrder::Normal)
            } else if c == 'S' {
                Command::Sort(SortBy::Size, SortOrder::Reverse)
            } else {
                Command::Unhandled
            }
        } else if leader == 'c' {
            if c == 'c' || c == 'w' {
                Command::RenameEmpty
            } else if c == 'e' {
                Command::RenameSuffix
            } else {
                Command::Unhandled
            }
        } else {
            Command::Unhandled
        },
        _ => Command::Unhandled,
    }
}

/// What a character key does without a leader.
pub open spec fn char_command(c: char) -> Command {
    if c == '\'' || c == '`' {
        Command::Leader('`', c)
    } else if c == 'm' {
        Command::BookmarkLeader
    } else if c == 's' || c == 'c' {
        Command::Leader(c, c)
    } else if c == 'h' {
        Command::ChdirParent
    } else if c == '\n' || c == 'l' {
        Command::Open
    } else if c == 'o' {
        Command::Mount
    } else if c == 'x' {
        Command::Execute
    } else if c == 'k' {
        Command::Up
    } else if c == 'j' {
        Command::Down
    } else if c == 'g' {
        Command::Home
    } else if c == 'G' {
        Command::End
    } else if c == 'v' || c == '3' {
        Command::View
    } else if c == 'e' || c == '4' {
        Command::Edit
    } else if c == ' ' {
        Command::TagAndDown(TagOp::Toggle)
    } else if c == 't' {
        Command::TagAndDown(TagOp::Tag)
    } else if c == 'u' {
        Command::TagAndDown(TagOp::Untag)
    } else if c == '*' {
        Command::TagShown(TagOp::Toggle)
    } else if c == 'T' {
        Command::TagShown(TagOp::Tag)
    } else if c == 'U' {
        Command::TagShown(TagOp::Untag)
    } else if c == '+' {
        Command::PromptTagGlob
    } else if c == '-' || c == '\\' {
        Command::PromptUntagGlob
    } else if c == 'f' || c == '/' {
        Command::PromptFileFilter
    } else if c == '7' {
        Command::PromptMkdir
    } else if c == 'r' {
        Command::RenameNew
    } else if c == 'i' || c == 'I' {
        Command::RenameName
    } else if c == 'a' {
        Command::RenameStem
    } else if c == 'A' {
        Command::RenameEnd
    } else if c == ':' || c == '!' {
        Command::PromptShell
    } else if c == '8' {
        Command::Delete
    } else if c == '5' {
        Command::Copy
    } else if c == '6' {
        Command::Move
    } else {
        Command::Unhandled
    }
}

/// What a key does without a leader.
pub open spec fn plain_command(key: PanelKey) -> Command {
    match key {
        PanelKey::Char(c) => char_command(c),
        PanelKey::Ctrl(c) => if c == 'b' {
            Command::PageUp
        } else if c == 'f' {
            Command::PageDown
        } else if c == 'r' {
            Command::Reload
        } else if c == 'p' {
            Command::Fzf
        } else {
            Command::Unhandled
        },
        PanelKey::F(n) => if n == 3 {
            Command::View
        } else if n == 4 {
            Command::Edit
        } else if n == 5 {
            Command::Copy
        } else if n == 6 {
            Command::Move
        } else if n == 7 {
            Command::PromptMkdir
        } else if n == 8 {
            Command::Delete
        } else {
            Command::Unhandled
        },
        PanelKey::Left => Command::ChdirParent,
        PanelKey::Right => Command::Open,
        PanelKey::Up => Command::Up,
        PanelKey::Down => Command::Down,
        PanelKey::Home | PanelKey::CtrlHome => Command::Home,
        PanelKey::End | PanelKey::CtrlEnd => Command::End,
        PanelKey::PageUp => Command::PageUp,
        PanelKey::PageDown => Command::PageDown,
        PanelKey::Insert => Command::TagAndDown(TagOp::Toggle),
        PanelKey::Backspace => Command::ToggleHidden,
        PanelKey::Other => Command::Unhandled,
    }
}

/// What a key does, with the pending leader if there is one.
pub open spec fn key_command(leader: Option<char>, key: PanelKey) -> Command {
    match leader {
        Some(l) => leader_command(l, key),
        None => plain_command(key),
    }
}

fn leader_command_of(leader: char, key: PanelKey) -> (r: Command)
    ensures
        r == leader_command(leader, key),
{
    match key {
        PanelKey::Char(c) => if leader == '`' {
            if c == '\'' || c == '`' {
                Command::ChdirOldCwd
            } else if bookmark_key(c) {
                Command::GotoBookmark(c)
            } else {
                Command::Unhandled
            }
        } else if leader == 'm' {
            if bookmark_key(c) {
                Command::SetBookmark(c)
            } else {
                Command::Unhandled
            }
        } else if leader == 's' {
            if c == 'n' {
                Command::Sort(SortBy::Name, SortOrder::Normal)
            } else if c == 'N' {
                Command::Sort(SortBy::Name, SortOrder::Reverse)
            } else if c == 'e' {
                Command::Sort(SortBy::Extension, SortOrder::Normal)
            } else if c == 'E' {
                Command::Sort(SortBy::Extension, SortOrder::Reverse)
            } else if c == 'd' {
                Command::Sort(SortBy::Date, SortOrder::Normal)
            } else if c == 'D' {
                Command::Sort(SortBy::Date, SortOrder::Reverse)
            } else if c == 's' {
                Command::Sort(SortBy::Size, SortOrder::Normal)
            } else if c == 'S' {
                Command::Sort(SortBy::Size, SortOrder::Reverse)
            } else {
                Command::Unhandled
            }
        } else if leader == 'c' {
            if c == 'c' || c == 'w' {
                Command::RenameEmpty
            } else if c == 'e' {
                Command::RenameSuffix
            } else {
                Command::Unhandled
            }
        } else {
            Command::Unhandled
        },
        _ => Command::Unhandled,
    }
}

fn char_command_of(c: char) -> (r: Command)
    ensures
        r == char_command(c),
{
    if c == '\'' || c == '`' {
        Command::Leader('`', c)
    } else if c == 'm' {
        Command::BookmarkLeader
    } else if c == 's' || c == 'c' {
        Command::Leader(c, c)
    } else if c == 'h' {
        Command::ChdirParent
    } else if c == '\n' || c == 'l' {
        Command::Open
    } else if c == 'o' {
        Command::Mount
    } else if c == 'x' {
        Command::Execute
    } else if c == 'k' {
        Command::Up
    } else if c == 'j' {
        Command::Down
    } else if c == 'g' {
        Command::Home
    } else if c == 'G' {
        Command::End
    } else if c == 'v' || c == '3' {
        Command::View
    } else if c == 'e' || c == '4' {
        Command::Edit
    } else if c == ' ' {
        Command::TagAndDown(TagOp::Toggle)
    } else if c == 't' {
        Command::TagAndDown(TagOp::Tag)
    } else if c == 'u' {
        Command::TagAndDown(TagOp::Untag)
    } else if c == '*' {
        Command::TagShown(TagOp::Toggle)
    } else if c == 'T' {
        Command::TagShown(TagOp::Tag)
    } else if c == 'U' {
        Command::TagShown(TagOp::Untag)
    } else if c == '+' {
        Command::PromptTagGlob
    } else if c == '-' || c == '\\' {
        Command::PromptUntagGlob
    } else if c == 'f' || c == '/' {
        Command::PromptFileFilter
    } else if c == '7' {
        Command::PromptMkdir
    } else if c == 'r' {
        Command::RenameNew
    } else if c == 'i' || c == 'I' {
        Command::RenameName
    } else if c == 'a' {
        Command::RenameStem
    } else if c == 'A' {
        Command::RenameEnd
    } else if c == ':' || c == '!' {
        Command::PromptShell
    } else if c == '8' {
        Command::Delete
    } else if c == '5' {
        Command::Copy
    } else if c == '6' {
        Command::Move
    } else {
        Command::Unhandled
    }
}

/// The command of `key`, with the pending leader if there is one.
pub fn command_of(leader: Option<char>, key: PanelKey) -> (r: Command)
    ensures
        r == key_command(leader, key),
{
    match leader {
        Some(l) => leader_command_of(l, key),
        None => match key {
            PanelKey::Char(c) => char_command_of(c),
            PanelKey::Ctrl(c) => if c == 'b' {
                Command::PageUp
            } else if c == 'f' {
                Command::PageDown
            } else if c == 'r' {
                Command::Reload
            } else if c == 'p' {
                Command::Fzf
            } else {
                Command::Unhandled
            },
            PanelKey::F(n) => if n == 3 {
                Command::View
            } else if n == 4 {
                Command::Edit
            } else if n == 5 {
                Command::Copy
            } else if n == 6 {
                Command::Move
            } else if n == 7 {
                Command::PromptMkdir
            } else if n == 8 {
                Command::Delete
            } else {
                Command::Unhandled
            },
            PanelKey::Left => Command::ChdirParent,
            PanelKey::Right => Command::Open,
            PanelKey::Up => Command::Up,
            PanelKey::Down => Command::Down,
            PanelKey::Home | PanelKey::CtrlHome => Command::Home,
            PanelKey::End | PanelKey::CtrlEnd => Command::End,
            PanelKey::PageUp => Command::PageUp,
            PanelKey::PageDown => Command::PageDown,
            PanelKey::Insert => Command::TagAndDown(TagOp::Toggle),
            PanelKey::Backspace => Command::ToggleHidden,
            PanelKey::Other => Command::Unhandled,
        },
    }
}


/// What the caller is asked to do after a key.
#[derive(Debug)]
pub enum PanelAction {
    /// The key is not one of the panel's.
    Unhandled,
    /// The key was handled; nothing is left to do.
    Nothing,
    /// Show the pending leader.
    Leader(Option<char>),
    /// Show an error.
    Error(String),
    ChdirOldCwd,
    GotoBookmark(char),
    SetBookmark(char),
    SortFiles(SortBy, SortOrder),
    /// Ask for a new name, starting from the text with the cursor at the
    /// given character.
    PromptRename(String, usize),
    ChdirParent,
    /// Change to the directory.
    Chdir(String),
    /// Follow the symbolic link of the entry.
    FollowLink(Entry),
    /// Mount the archive, and open it as a file if that fails.
    MountImplicit(String),
    /// Mount the archive, and report when that fails.
    MountExplicit(String),
    /// Open the file with the opener.
    OpenFile(String),
    Execute(String),
    ViewFile(String),
    EditFile(String),
    PromptTagGlob,
    PromptUntagGlob,
    Reload,
    ToggleHidden,
    /// Ask for a filter, starting from the current one.
    PromptFileFilter(String),
    PromptMkdir,
    PromptShell,
    /// Ask the question (title, text) before deleting the entries.
    Question(String, String, Vec<Entry>),
    Copy(Vec<Entry>),
    Move(Vec<Entry>),
    Fzf,
}

/// The name with each `%` doubled (as `str::replace('%', "%%")`), so that a
/// template leaves it as it is.
pub open spec fn escape_percent_spec(s: Seq<char>) -> Seq<char>
    decreases s.len(),
{
    if s.len() == 0 {
        Seq::empty()
    } else {
        let r = escape_percent_spec(s.drop_last());
        if s.last() == '%' {
            r + seq!['%', '%']
        } else {
            r.push(s.last())
        }
    }
}

proof fn lemma_escape_percent_doubled(s: Seq<char>)
    ensures
        escape_percent_spec(s) == crate::template::doubled(s, '%'),
    decreases s.len(),
{
    if s.len() > 0 {
        lemma_escape_percent_doubled(s.drop_last());
    }
}

/// Text escaped with `escape_percent` comes back unchanged from template
/// substitution with `%` as the delimiter, whatever the mapping.
pub proof fn law_escaped_text_survives_substitution(s: Seq<char>, mapping: Seq<(Seq<char>, Seq<char>)>)
    ensures
        crate::template::substitute_spec(escape_percent_spec(s), mapping, '%') == s,
{
    lemma_escape_percent_doubled(s);
    crate::template::law_substitute_doubled_delimiters(s, mapping, '%');
}

/// `s` with each `%` doubled.
pub fn escape_percent(s: &str) -> (r: String)
    ensures
        r@ == escape_percent_spec(s@),
{
    let v = chars_of(s);
    let mut r = String::new();
    let mut i: usize = 0;
    while i < v.len()
        invariant
            i <= v@.len(),
            v@ == s@,
            r@ == escape_percent_spec(v@.take(i as int)),
        decreases v.len() - i,
    {
        assert(v@.take(i + 1).drop_last() =~= v@.take(i as int));
        if v[i] == '%' {
            push_char(&mut r, '%');
            push_char(&mut r, '%');
            assert(r@ =~= escape_percent_spec(v@.take(i as int)) + seq!['%', '%']);
        } else {
            push_char(&mut r, v[i]);
        }
        i += 1;
    }
    assert(v@.take(i as int) =~= v@);
    r
}

/// The question asked before deleting `files`.
pub open spec fn delete_question(files: Seq<Entry>) -> Seq<char> {
    if files.len() == 1 {
        "Delete "@ + files[0].file_name@ + "?"@
    } else {
        "Delete "@ + decimal(files.len()) + " files/directories?"@
    }
}



/// The entries `listed` picks out of `list`, in order.
pub open spec fn filtered(list: Seq<Entry>, hidden_files: HiddenFiles, filter: Seq<char>) -> Seq<Entry> {
    let idx = listed(list, hidden_files, nfkd(case_fold(filter)));
    Seq::new(idx.len(), |i: int| list[idx[i]])
}

/// The path of `file` as shown: inside a mounted archive, the archive's
/// path in place of its mount directory.
pub open spec fn shown_path(file: Seq<char>, mounts: Option<Mounts>) -> Seq<char> {
    match mounts {
        Some(m) => remap(file, m, true),
        None => file,
    }
}

/// The index of the first of `shown` from `i` on whose shown path is `target`.
pub open spec fn select_index_from(shown: Seq<Entry>, target: Seq<char>, mounts: Option<Mounts>, i: int) -> Option<int>
    decreases shown.len() - i,
{
    if i < 0 || i >= shown.len() {
        None
    } else if same_path(shown_path(shown[i].file@, mounts), target) {
        Some(i)
    } else {
        select_index_from(shown, target, mounts, i + 1)
    }
}

pub open spec fn mounts_of(mounter: Option<&ArchiveMounter>) -> Option<Mounts> {
    match mounter {
        Some(m) => Some(m@),
        None => None,
    }
}

/// The entry of `list` that stands for the same file as `e`.
pub open spec fn listed_file(list: Seq<Entry>, e: Entry) -> bool {
    exists|j: int| 0 <= j < list.len() && same_path(#[trigger] list[j].file@, e.file@)
}

/// Mouse events over the panel; a row is given when the pointer is over the
/// list, counted from its top.
#[derive(Debug, Clone, Copy, PartialEq, Eq, Structural)]
pub enum PanelMouse {
    Left(Option<usize>),
    Right(Option<usize>),
    WheelUp,
    WheelDown,
    Other,
}

fn shown_path_of(file: &str, mounter: Option<&ArchiveMounter>) -> (r: String)
    ensures
        r@ == shown_path(file@, mounts_of(mounter)),
{
    match mounter {
        Some(m) => m.archive_path(file),
        None => file.to_string(),
    }
}

fn select_index(shown: &Vec<Entry>, target: &str, mounter: Option<&ArchiveMounter>) -> (r: Option<usize>)
    ensures
        match r {
            Some(i) => select_index_from(shown@, target@, mounts_of(mounter), 0) == Some(i as int)
                && i < shown@.len(),
            None => select_index_from(shown@, target@, mounts_of(mounter), 0) is None,
        },
{
    let mut i: usize = 0;
    while i < shown.len()
        invariant
            i <= shown@.len(),
            select_index_from(shown@, target@, mounts_of(mounter), 0) == select_index_from(
                shown@,
                target@,
                mounts_of(mounter),
                i as int,
            ),
        decreases shown.len() - i,
    {
        let p = shown_path_of(shown[i].file.as_str(), mounter);
        if paths_match(p.as_str(), target) {
            return Some(i);
        }
        i += 1;
    }
    None
}

fn in_list(list: &Vec<Entry>, e: &Entry) -> (r: bool)
    ensures
        r == listed_file(list@, *e),
{
    let mut j: usize = 0;
    while j < list.len()
        invariant
            j <= list@.len(),
            forall|k: int| 0 <= k < j ==> !same_path(#[trigger] list@[k].file@, e.file@),
        decreases list.len() - j,
    {
        if paths_match(list[j].file.as_str(), e.file.as_str()) {
            return true;
        }
        j += 1;
    }
    false
}


/// The tags after `op` on each of `es` whose name the regular expression
/// `pattern` matches, first to last.
pub open spec fn tag_matching(op: TagOp, tagged: Seq<Entry>, es: Seq<Entry>, pattern: Seq<char>) -> Seq<Entry>
    decreases es.len(),
{
    if es.len() == 0 {
        tagged
    } else {
        let t = tag_matching(op, tagged, es.drop_last(), pattern);
        if regex_matches(pattern, true, es.last().file_name@) {
            tag_op(op, t, es.last())
        } else {
            t
        }
    }
}

/// What a key did.
#[derive(Debug)]
pub struct KeyOutcome {
    /// A pending leader was dropped: the caller stops showing it.
    pub leader_reset: bool,
    /// The cursor moved: the caller announces the new selected entry.
    pub selection_changed: bool,
    pub action: PanelAction,
}

/// The state of a file panel.
pub struct FilePanelState {
    /// The entries of the directory, as read.
    pub file_list: Vec<Entry>,
    /// The entries shown, filtered and sorted.
    pub shown: Vec<Entry>,
    /// The tagged entries, in the order they were tagged.
    pub tagged: Vec<Entry>,
    /// The index of the entry under the cursor.
    pub cursor: usize,
    /// The index of the first entry in view.
    pub first_line: usize,
    /// The number of lines of the list area.
    pub height: usize,
    /// A pending leader key (`` ` ``, `m`, `s` or `c`).
    pub leader: Option<char>,
    /// The filter typed by the user.
    pub file_filter: String,
    pub hidden_files: HiddenFiles,
    /// The file to put the cursor on when the list is next shown.
    pub selected_file: Option<String>,
    pub sort_by: SortBy,
    pub sort_order: SortOrder,
    /// The shown directory lies inside a mounted archive.
    pub inside_archive: bool,
    /// Archives can be mounted (an archive file system program was found).
    pub can_mount: bool,
}

impl FilePanelState {
    /// The cursor is on a shown entry, or at 0 when none is shown.
    pub open spec fn wf(&self) -> bool {
        if self.shown@.len() == 0 {
            self.cursor == 0
        } else {
            self.cursor < self.shown@.len()
        }
    }

    /// The entry under the cursor, when one is shown.
    pub open spec fn current(&self) -> Entry {
        self.shown@[self.cursor as int]
    }

    /// The entries an operation applies to: the tagged ones in some order,
    /// or, when none is tagged, the one under the cursor.
    pub open spec fn is_selection(&self, files: Seq<Entry>) -> bool {
        if self.tagged@.len() == 0 {
            files == if self.shown@.len() == 0 {
                Seq::<Entry>::empty()
            } else {
                seq![self.current()]
            }
        } else {
            in_sort_order(files, self.tagged@, self.sort_by, self.sort_order)
        }
    }

    /// The rename prompt, starting from `text` with the cursor at `pos`.
    pub open spec fn is_rename(a: PanelAction, text: Seq<char>, pos: int) -> bool {
        a matches PanelAction::PromptRename(t, k) && t@ == text && k == pos
    }

    /// The action of `cmd` in this state.
    pub open spec fn command_action(&self, cmd: Command, a: PanelAction) -> bool {
        let empty = self.shown@.len() == 0;
        let name = escape_percent_spec(self.current().file_name@);
        let file = self.current().file@;
        match cmd {
            Command::Unhandled => a is Unhandled,
            Command::ChdirOldCwd => a is ChdirOldCwd,
            Command::GotoBookmark(c) => a == PanelAction::GotoBookmark(c),
            Command::SetBookmark(c) => a == PanelAction::SetBookmark(c),
            Command::Sort(b, o) => a == PanelAction::SortFiles(b, o),
            Command::RenameEmpty | Command::RenameNew => if empty {
                a is Nothing
            } else {
                Self::is_rename(a, Seq::empty(), 0)
            },
            Command::RenameSuffix => if empty {
                a is Nothing
            } else {
                Self::is_rename(a, tar_suffix_spec(name), 0)
            },
            Command::RenameName => if empty {
                a is Nothing
            } else {
                Self::is_rename(a, name, 0)
            },
            Command::RenameStem => if empty {
                a is Nothing
            } else {
                Self::is_rename(a, name, tar_stem_spec(name).len() as int)
            },
            Command::RenameEnd => if empty {
                a is Nothing
            } else {
                Self::is_rename(a, name, encode_utf8(name).len() as int)
            },
            Command::Leader(_, shown) => a == PanelAction::Leader(Some(shown)),
            Command::BookmarkLeader => if self.inside_archive {
                a matches PanelAction::Error(m) && m@ == "Cannot bookmark inside an archive"@
            } else {
                a == PanelAction::Leader(Some('m'))
            },
            Command::ChdirParent => a is ChdirParent,
            Command::Open => if empty {
                a is Nothing
            } else if self.current().is_dir {
                a matches PanelAction::Chdir(f) && f@ == file
            } else if self.current().link_target is Some {
                a matches PanelAction::FollowLink(e) && e == self.current()
            } else if is_archive_extension_spec(self.current().extension@) && self.can_mount {
                a matches PanelAction::MountImplicit(f) && f@ == file
            } else {
                a matches PanelAction::OpenFile(f) && f@ == file
            },
            Command::Mount => if empty {
                a is Nothing
            } else if self.can_mount {
                a matches PanelAction::MountExplicit(f) && f@ == file
            } else {
                a matches PanelAction::Error(m) && m@ == "archivefs/archivemount executable not found"@
            },
            Command::Execute => if empty {
                a is Nothing
            } else {
                a matches PanelAction::Execute(f) && f@ == file
            },
            Command::View => if empty {
                a is Nothing
            } else if self.current().is_dir {
                a matches PanelAction::Chdir(f) && f@ == file
            } else {
                a matches PanelAction::ViewFile(f) && f@ == file
            },
            Command::Edit => if empty {
                a is Nothing
            } else if self.current().is_dir {
                a matches PanelAction::Chdir(f) && f@ == file
            } else {
                a matches PanelAction::EditFile(f) && f@ == file
            },
            Command::Up | Command::Down | Command::Home | Command::End | Command::PageUp
            | Command::PageDown | Command::TagAndDown(_) | Command::TagShown(_) => a is Nothing,
            Command::PromptTagGlob => a is PromptTagGlob,
            Command::PromptUntagGlob => a is PromptUntagGlob,
            Command::Reload => a is Reload,
            Command::ToggleHidden => a is ToggleHidden,
            Command::PromptFileFilter => a matches PanelAction::PromptFileFilter(f) && f@
                == self.file_filter@,
            Command::PromptMkdir => a is PromptMkdir,
            Command::PromptShell => a is PromptShell,
            Command::Fzf => a is Fzf,
            Command::Delete => if empty && self.tagged@.len() == 0 {
                a is Nothing
            } else {
                a matches PanelAction::Question(t, q, fs) && t@ == "Delete"@ && self.is_selection(fs@)
                    && q@ == delete_question(fs@)
            },
            Command::Copy => if empty && self.tagged@.len() == 0 {
                a is Nothing
            } else {
                a matches PanelAction::Copy(fs) && self.is_selection(fs@)
            },
            Command::Move => if empty && self.tagged@.len() == 0 {
                a is Nothing
            } else {
                a matches PanelAction::Move(fs) && self.is_selection(fs@)
            },
        }
    }

    /// The cursor after `cmd`.
    pub open spec fn cursor_after(&self, cmd: Command) -> int {
        let len = self.shown@.len() as int;
        let page = sat_sub(self.height as int, 1);
        match cmd {
            Command::Up => clamp_cursor_spec(sat_sub(self.cursor as int, 1), len),
            Command::Down | Command::TagAndDown(_) => clamp_cursor_spec(sat_add(self.cursor as int, 1), len),
            Command::Home => 0,
            Command::End => clamp_cursor_spec(len, len),
            Command::PageUp => clamp_cursor_spec(sat_sub(self.cursor as int, page), len),
            Command::PageDown => clamp_cursor_spec(sat_add(self.cursor as int, page), len),
            _ => self.cursor as int,
        }
    }

    /// The first line in view after `cmd`.
    pub open spec fn first_line_after(&self, cmd: Command) -> int {
        let len = self.shown@.len() as int;
        let page = sat_sub(self.height as int, 1);
        match cmd {
            Command::PageUp => clamp_first_line_spec(sat_sub(self.first_line as int, page), self.height as int, len),
            Command::PageDown => clamp_first_line_spec(sat_add(self.first_line as int, page), self.height as int, len),
            _ => self.first_line as int,
        }
    }

    /// The tags after `cmd`.
    pub open spec fn tagged_after(&self, cmd: Command) -> Seq<Entry> {
        match cmd {
            Command::TagAndDown(op) => if self.shown@.len() == 0 {
                self.tagged@
            } else {
                tag_op(op, self.tagged@, self.current())
            },
            Command::TagShown(op) => tag_each(op, self.tagged@, self.shown@),
            _ => self.tagged@,
        }
    }

    /// The pending leader after `cmd`.
    pub open spec fn leader_after(&self, cmd: Command) -> Option<char> {
        match cmd {
            Command::Leader(l, _) => Some(l),
            Command::BookmarkLeader => if self.inside_archive { None } else { Some('m') },
            _ => None,
        }
    }

    /// An empty panel of `height` lines, sorted by name.
    pub fn new(height: usize, can_mount: bool) -> (r: FilePanelState)
        ensures
            r.wf(),
            r.file_list@.len() == 0,
            r.shown@.len() == 0,
            r.tagged@.len() == 0,
            r.hidden_files == HiddenFiles::Hide,
            r.selected_file is None,
            r.cursor == 0,
            r.first_line == 0,
            r.height == height,
            r.leader is None,
            r.file_filter@.len() == 0,
            r.sort_by == SortBy::Name,
            r.sort_order == SortOrder::Normal,
            !r.inside_archive,
            r.can_mount == can_mount,
    {
        FilePanelState {
            file_list: Vec::new(),
            shown: Vec::new(),
            tagged: Vec::new(),
            cursor: 0,
            first_line: 0,
            height,
            leader: None,
            file_filter: String::new(),
            hidden_files: HiddenFiles::Hide,
            selected_file: None,
            sort_by: SortBy::Name,
            sort_order: SortOrder::Normal,
            inside_archive: false,
            can_mount,
        }
    }

    /// The cursor moved to `pos`, kept on a shown entry.
    pub fn clamp_cursor(&self, pos: usize) -> (r: usize)
        ensures
            r == clamp_cursor_spec(pos as int, self.shown@.len() as int),
    {
        clamp_list_cursor(pos, self.shown.len())
    }

    /// Pulls the first line back so that the view does not extend past the
    /// last entry.
    pub fn clamp_first_line(&mut self)
        ensures
            final(self).first_line == clamp_first_line_spec(
                old(self).first_line as int,
                old(self).height as int,
                old(self).shown@.len() as int,
            ),
            final(self).shown == old(self).shown,
            final(self).tagged == old(self).tagged,
            final(self).cursor == old(self).cursor,
            final(self).height == old(self).height,
            final(self).leader == old(self).leader,
            final(self).file_filter == old(self).file_filter,
            final(self).file_list == old(self).file_list,
            final(self).hidden_files == old(self).hidden_files,
            final(self).selected_file == old(self).selected_file,
            final(self).sort_by == old(self).sort_by,
            final(self).sort_order == old(self).sort_order,
            final(self).inside_archive == old(self).inside_archive,
            final(self).can_mount == old(self).can_mount,
    {
        self.first_line = clamp_first_line(self.first_line, self.height, self.shown.len());
    }

    /// Applies `op` to the tags of `e`.
    fn apply_tag_op(&mut self, op: TagOp, e: &Entry)
        ensures
            final(self).tagged@ == tag_op(op, old(self).tagged@, *e),
            *final(self) == (FilePanelState { tagged: final(self).tagged, ..*old(self) }),
    {
        let pos = position_of(&self.tagged, e.file.as_str());
        match (op, pos) {
            (TagOp::Toggle, Some(i)) | (TagOp::Untag, Some(i)) => {
                self.tagged.swap_remove(i);
            },
            (TagOp::Toggle, None) | (TagOp::Tag, None) => {
                self.tagged.push(e.duplicate());
            },
            _ => {},
        }
    }

    /// Applies `op` to the tags of the entry under the cursor, if any.
    pub fn tag_current(&mut self, op: TagOp)
        requires
            old(self).wf(),
        ensures
            final(self).wf(),
            final(self).tagged@ == if old(self).shown@.len() == 0 {
                old(self).tagged@
            } else {
                tag_op(op, old(self).tagged@, old(self).shown@[old(self).cursor as int])
            },
            *final(self) == (FilePanelState { tagged: final(self).tagged, ..*old(self) }),
    {
        if self.shown.len() > 0 {
            let e = self.shown[self.cursor].duplicate();
            self.apply_tag_op(op, &e);
        }
    }

    /// Applies `op` to the tags of each shown entry, first to last.
    pub fn tag_shown(&mut self, op: TagOp)
        requires
            old(self).wf(),
        ensures
            final(self).wf(),
            final(self).tagged@ == tag_each(op, old(self).tagged@, old(self).shown@),
            *final(self) == (FilePanelState { tagged: final(self).tagged, ..*old(self) }),
    {
        let ghost t0 = self.tagged@;
        let mut k: usize = 0;
        assert(self.shown@.take(0) =~= Seq::<Entry>::empty());
        while k < self.shown.len()
            invariant
                k <= self.shown@.len(),
                self.tagged@ == tag_each(op, t0, self.shown@.take(k as int)),
                *self == (FilePanelState { tagged: self.tagged, ..*old(self) }),
            decreases self.shown.len() - k,
        {
            let e = self.shown[k].duplicate();
            self.apply_tag_op(op, &e);
            assert(self.shown@.take(k + 1).drop_last() =~= self.shown@.take(k as int));
            k += 1;
        }
        assert(self.shown@.take(k as int) =~= self.shown@);
    }

    /// The entry under the cursor, when one is shown.
    pub fn get_selected_entry(&self) -> (r: Option<Entry>)
        requires
            self.wf(),
        ensures
            r == if self.shown@.len() == 0 { None } else { Some(self.current()) },
    {
        if self.shown.len() == 0 {
            None
        } else {
            Some(self.shown[self.cursor].duplicate())
        }
    }

    /// The tagged entries, sorted as the panel is.
    pub fn get_tagged_files(&self) -> (r: Vec<Entry>)
        ensures
            in_sort_order(r@, self.tagged@, self.sort_by, self.sort_order),
    {
        sort_entries_by(&self.tagged, self.sort_by, self.sort_order)
    }

    /// The entries an operation applies to: the tagged ones, or, when none
    /// is tagged, the one under the cursor.
    pub fn get_selected_files(&self) -> (r: Vec<Entry>)
        requires
            self.wf(),
        ensures
            self.is_selection(r@),
    {
        if self.tagged.len() == 0 {
            let mut r: Vec<Entry> = Vec::new();
            if self.shown.len() > 0 {
                r.push(self.shown[self.cursor].duplicate());
                assert(r@ =~= seq![self.current()]);
            }
            r
        } else {
            self.get_tagged_files()
        }
    }

    fn rename_action(&self, cmd: Command) -> (a: PanelAction)
        requires
            self.wf(),
            self.shown@.len() > 0,
            cmd is RenameSuffix || cmd is RenameName || cmd is RenameStem || cmd is RenameEnd,
        ensures
            self.command_action(cmd, a),
    {
        let name = escape_percent(self.shown[self.cursor].file_name.as_str());
        assert(name@ == escape_percent_spec(self.current().file_name@));
        match cmd {
            Command::RenameSuffix => {
                let suffix = tar_suffix(name.as_str());
                assert(suffix@ == tar_suffix_spec(name@));
                PanelAction::PromptRename(suffix, 0)
            },
            Command::RenameStem => {
                let stem = tar_stem(name.as_str());
                let n = stem.as_str().unicode_len();
                PanelAction::PromptRename(name, n)
            },
            Command::RenameEnd => {
                let n = name.as_str().as_bytes().len();
                PanelAction::PromptRename(name, n)
            },
            _ => PanelAction::PromptRename(name, 0),
        }
    }

    fn entry_action(&self, cmd: Command) -> (a: PanelAction)
        requires
            self.wf(),
            self.shown@.len() > 0,
            cmd is Open || cmd is Mount || cmd is Execute || cmd is View || cmd is Edit,
        ensures
            self.command_action(cmd, a),
    {
        let e = &self.shown[self.cursor];
        match cmd {
            Command::Open => if e.is_dir {
                PanelAction::Chdir(e.file.clone())
            } else if e.link_target.is_some() {
                PanelAction::FollowLink(e.duplicate())
            } else if is_archive_extension(e.extension.as_str()) && self.can_mount {
                PanelAction::MountImplicit(e.file.clone())
            } else {
                PanelAction::OpenFile(e.file.clone())
            },
            Command::Mount => if self.can_mount {
                PanelAction::MountExplicit(e.file.clone())
            } else {
                let m = String::from_str("archivefs/archivemount executable not found");
                PanelAction::Error(m)
            },
            Command::Execute => PanelAction::Execute(e.file.clone()),
            Command::View => if e.is_dir {
                PanelAction::Chdir(e.file.clone())
            } else {
                PanelAction::ViewFile(e.file.clone())
            },
            _ => if e.is_dir {
                PanelAction::Chdir(e.file.clone())
            } else {
                PanelAction::EditFile(e.file.clone())
            },
        }
    }

    fn selection_action(&self, cmd: Command) -> (a: PanelAction)
        requires
            self.wf(),
            cmd is Delete || cmd is Copy || cmd is Move,
        ensures
            self.command_action(cmd, a),
    {
        let files = self.get_selected_files();
        if files.len() == 0 {
            proof {
                files@.to_multiset_ensures();
                self.tagged@.to_multiset_ensures();
            }
            return PanelAction::Nothing;
        }
        match cmd {
            Command::Delete => {
                let mut q = String::from_str("Delete ");
                if files.len() == 1 {
                    push_str(&mut q, files[0].file_name.as_str());
                    push_str(&mut q, "?");
                } else {
                    push_decimal_u64(&mut q, files.len() as u64);
                    push_str(&mut q, " files/directories?");
                }
                proof {
                    reveal_strlit("Delete ");
                    reveal_strlit("?");
                    reveal_strlit(" files/directories?");
                }
                PanelAction::Question(String::from_str("Delete"), q, files)
            },
            Command::Copy => PanelAction::Copy(files),
            _ => PanelAction::Move(files),
        }
    }

    /// The action of `cmd` in this state (the state itself is left as it is).
    pub fn action_of(&self, cmd: Command) -> (a: PanelAction)
        requires
            self.wf(),
        ensures
            self.command_action(cmd, a),
    {
        let empty = self.shown.len() == 0;
        match cmd {
            Command::Unhandled => PanelAction::Unhandled,
            Command::ChdirOldCwd => PanelAction::ChdirOldCwd,
            Command::GotoBookmark(c) => PanelAction::GotoBookmark(c),
            Command::SetBookmark(c) => PanelAction::SetBookmark(c),
            Command::Sort(b, o) => PanelAction::SortFiles(b, o),
            Command::RenameEmpty | Command::RenameNew => if empty {
                PanelAction::Nothing
            } else {
                PanelAction::PromptRename(String::new(), 0)
            },
            Command::RenameSuffix | Command::RenameName | Command::RenameStem | Command::RenameEnd => {
                if empty {
                    PanelAction::Nothing
                } else {
                    self.rename_action(cmd)
                }
            },
            Command::Leader(_, shown) => PanelAction::Leader(Some(shown)),
            Command::BookmarkLeader => if self.inside_archive {
                let m = String::from_str("Cannot bookmark inside an archive");
                PanelAction::Error(m)
            } else {
                PanelAction::Leader(Some('m'))
            },
            Command::ChdirParent => PanelAction::ChdirParent,
            Command::Open | Command::Mount | Command::Execute | Command::View | Command::Edit => {
                if empty {
                    PanelAction::Nothing
                } else {
                    self.entry_action(cmd)
                }
            },
            Command::Up | Command::Down | Command::Home | Command::End | Command::PageUp
            | Command::PageDown | Command::TagAndDown(_) | Command::TagShown(_) => PanelAction::Nothing,
            Command::PromptTagGlob => PanelAction::PromptTagGlob,
            Command::PromptUntagGlob => PanelAction::PromptUntagGlob,
            Command::Reload => PanelAction::Reload,
            Command::ToggleHidden => PanelAction::ToggleHidden,
            Command::PromptFileFilter => PanelAction::PromptFileFilter(self.file_filter.clone()),
            Command::PromptMkdir => PanelAction::PromptMkdir,
            Command::PromptShell => PanelAction::PromptShell,
            Command::Fzf => PanelAction::Fzf,
            Command::Delete | Command::Copy | Command::Move => self.selection_action(cmd),
        }
    }

    /// Carries out the part of `cmd` that changes the panel: the cursor, the
    /// view, the tags and the pending leader.  True when the cursor moved.
    pub fn apply_command(&mut self, cmd: Command) -> (moved: bool)
        requires
            old(self).wf(),
        ensures
            final(self).wf(),
            final(self).cursor == old(self).cursor_after(cmd),
            final(self).first_line == old(self).first_line_after(cmd),
            final(self).tagged@ == old(self).tagged_after(cmd),
            final(self).leader == old(self).leader_after(cmd),
            moved == (final(self).cursor != old(self).cursor),
            *final(self) == (FilePanelState {
                cursor: final(self).cursor,
                first_line: final(self).first_line,
                tagged: final(self).tagged,
                leader: final(self).leader,
                ..*old(self)
            }),
    {
        self.leader = None;
        match cmd {
            Command::Up => self.handle_up(),
            Command::Down => self.handle_down(),
            Command::Home => self.handle_home(),
            Command::End => self.handle_end(),
            Command::PageUp => self.handle_page_up(),
            Command::PageDown => self.handle_page_down(),
            Command::TagAndDown(op) => {
                self.tag_current(op);
                self.handle_down()
            },
            Command::TagShown(op) => {
                self.tag_shown(op);
                false
            },
            Command::Leader(l, _) => {
                self.leader = Some(l);
                false
            },
            Command::BookmarkLeader => {
                if !self.inside_archive {
                    self.leader = Some('m');
                }
                false
            },
            _ => false,
        }
    }

    /// Handles a key: what it asks of the caller, whether a pending leader
    /// was dropped (every key after a leader drops it), and whether the
    /// cursor moved.
    pub fn handle_key(&mut self, key: PanelKey) -> (r: KeyOutcome)
        requires
            old(self).wf(),
        ensures
            ({
                let cmd = key_command(old(self).leader, key);
                &&& final(self).wf()
                &&& old(self).command_action(cmd, r.action)
                &&& final(self).cursor == old(self).cursor_after(cmd)
                &&& final(self).first_line == old(self).first_line_after(cmd)
                &&& final(self).tagged@ == old(self).tagged_after(cmd)
                &&& final(self).leader == old(self).leader_after(cmd)
                &&& r.leader_reset == old(self).leader is Some
                &&& r.selection_changed == (final(self).cursor != old(self).cursor)
                &&& *final(self) == (FilePanelState {
                    cursor: final(self).cursor,
                    first_line: final(self).first_line,
                    tagged: final(self).tagged,
                    leader: final(self).leader,
                    ..*old(self)
                })
            }),
    {
        let leader_reset = self.leader.is_some();
        let cmd = command_of(self.leader, key);
        let action = self.action_of(cmd);
        let moved = self.apply_command(cmd);
        KeyOutcome { leader_reset, selection_changed: moved, action }
    }

    /// The cursor after the entries are filtered and sorted anew: on the
    /// entry shown as `selected` when it is there, else kept or put on the
    /// first entry.
    pub open spec fn cursor_after_refilter(
        &self,
        shown: Seq<Entry>,
        selected: Option<Seq<char>>,
        keep_cursor: bool,
        mounts: Option<Mounts>,
    ) -> int {
        clamp_cursor_spec(
            match selected {
                Some(f) => match select_index_from(shown, f, mounts, 0) {
                    Some(i) => i,
                    None => if keep_cursor { self.cursor as int } else { 0 },
                },
                None => 0,
            },
            shown.len() as int,
        )
    }

    /// Filters and sorts the directory's entries anew.  The cursor goes to
    /// the entry whose shown path is `selected` when there is one, else it
    /// is kept (`keep_cursor`) or put on the first entry; the view keeps the
    /// cursor at the same distance from its top where it can.
    pub fn filter_and_sort(&mut self, selected: Option<&str>, keep_cursor: bool, mounter: Option<&ArchiveMounter>)
        requires
            old(self).wf(),
        ensures
            final(self).wf(),
            in_sort_order(
                final(self).shown@,
                filtered(old(self).file_list@, old(self).hidden_files, old(self).file_filter@),
                final(self).sort_by,
                final(self).sort_order,
            ),
            final(self).cursor == old(self).cursor_after_refilter(
                final(self).shown@,
                match selected {
                    Some(f) => Some(f@),
                    None => None,
                },
                keep_cursor,
                mounts_of(mounter),
            ),
            final(self).first_line == clamp_first_line_spec(
                sat_sub(final(self).cursor as int, sat_sub(old(self).cursor as int, old(self).first_line as int)),
                old(self).height as int,
                final(self).shown@.len() as int,
            ),
            *final(self) == (FilePanelState {
                shown: final(self).shown,
                cursor: final(self).cursor,
                first_line: final(self).first_line,
                ..*old(self)
            }),
    {
        let offset = self.cursor.saturating_sub(self.first_line);
        let old_cursor = self.cursor;
        let listed_entries = filter_file_list(self.file_list.as_slice(), self.hidden_files, self.file_filter.as_str());
        proof {
            let idx = listed(old(self).file_list@, old(self).hidden_files, nfkd(case_fold(old(self).file_filter@)));
            assert(listed_entries@ =~= filtered(old(self).file_list@, old(self).hidden_files, old(self).file_filter@));
        }
        let shown = sort_entries_by(&listed_entries, self.sort_by, self.sort_order);
        let pos = match selected {
            Some(file) => match select_index(&shown, file, mounter) {
                Some(i) => i,
                None => if keep_cursor { old_cursor } else { 0 },
            },
            None => 0,
        };
        self.cursor = 0;
        self.shown = shown;
        self.cursor = self.clamp_cursor(pos);
        self.first_line = self.cursor.saturating_sub(offset);
        self.clamp_first_line();
    }

    /// Takes a newly read directory listing: shows it with the cursor on the
    /// selected file (or where it was), and untags what is no longer there.
    pub fn set_file_list(&mut self, file_list: Vec<Entry>, mounter: Option<&ArchiveMounter>)
        requires
            old(self).wf(),
        ensures
            final(self).wf(),
            final(self).file_list@ == file_list@,
            in_sort_order(
                final(self).shown@,
                filtered(file_list@, old(self).hidden_files, old(self).file_filter@),
                final(self).sort_by,
                final(self).sort_order,
            ),
            final(self).cursor == old(self).cursor_after_refilter(
                final(self).shown@,
                match old(self).selected_file {
                    Some(f) => Some(shown_path(f@, mounts_of(mounter))),
                    None => None,
                },
                true,
                mounts_of(mounter),
            ),
            final(self).tagged@ == old(self).tagged@.filter(|e: Entry| listed_file(file_list@, e)),
            *final(self) == (FilePanelState {
                file_list: final(self).file_list,
                shown: final(self).shown,
                cursor: final(self).cursor,
                first_line: final(self).first_line,
                tagged: final(self).tagged,
                ..*old(self)
            }),
    {
        self.file_list = file_list;
        let selected = match &self.selected_file {
            Some(f) => Some(shown_path_of(f.as_str(), mounter)),
            None => None,
        };
        match &selected {
            Some(f) => self.filter_and_sort(Some(f.as_str()), true, mounter),
            None => self.filter_and_sort(None, true, mounter),
        }
        let ghost t0 = self.tagged@;
        let mut kept: Vec<Entry> = Vec::new();
        let mut k: usize = 0;
        while k < self.tagged.len()
            invariant
                k <= self.tagged@.len(),
                self.tagged@ == t0,
                kept@ == t0.take(k as int).filter(|e: Entry| listed_file(self.file_list@, e)),
            decreases self.tagged.len() - k,
        {
            let e = self.tagged[k].duplicate();
            proof {
                reveal(Seq::filter);
                assert(t0.take(k + 1).drop_last() =~= t0.take(k as int));
                assert(t0.take(k + 1).last() == e);
            }
            if in_list(&self.file_list, &e) {
                kept.push(e);
            }
            k += 1;
        }
        assert(t0.take(k as int) =~= t0);
        self.tagged = kept;
    }

    /// The file the cursor is on, as shown.
    fn selected_shown_path(&self, mounter: Option<&ArchiveMounter>) -> (r: Option<String>)
        requires
            self.wf(),
        ensures
            r matches Some(f) ==> self.shown@.len() > 0 && f@ == shown_path(self.current().file@, mounts_of(mounter)),
            r is None ==> self.shown@.len() == 0,
    {
        if self.shown.len() == 0 {
            None
        } else {
            Some(shown_path_of(self.shown[self.cursor].file.as_str(), mounter))
        }
    }

    /// Filters and sorts anew with the cursor kept on the entry it is on, or
    /// on the first one when that entry is no longer shown.
    pub fn refilter(&mut self, mounter: Option<&ArchiveMounter>)
        requires
            old(self).wf(),
        ensures
            final(self).wf(),
            in_sort_order(
                final(self).shown@,
                filtered(old(self).file_list@, old(self).hidden_files, old(self).file_filter@),
                final(self).sort_by,
                final(self).sort_order,
            ),
            final(self).cursor == old(self).cursor_after_refilter(
                final(self).shown@,
                if old(self).shown@.len() == 0 {
                    None
                } else {
                    Some(shown_path(old(self).current().file@, mounts_of(mounter)))
                },
                false,
                mounts_of(mounter),
            ),
            *final(self) == (FilePanelState {
                shown: final(self).shown,
                cursor: final(self).cursor,
                first_line: final(self).first_line,
                ..*old(self)
            }),
    {
        let selected = self.selected_shown_path(mounter);
        match &selected {
            Some(f) => self.filter_and_sort(Some(f.as_str()), false, mounter),
            None => self.filter_and_sort(None, false, mounter),
        }
    }

    /// Sorts by `sort_by` in `sort_order`.
    pub fn sort_files(&mut self, sort_by: SortBy, sort_order: SortOrder, mounter: Option<&ArchiveMounter>)
        requires
            old(self).wf(),
        ensures
            final(self).wf(),
            final(self).sort_by == sort_by,
            final(self).sort_order == sort_order,
            in_sort_order(
                final(self).shown@,
                filtered(old(self).file_list@, old(self).hidden_files, old(self).file_filter@),
                final(self).sort_by,
                final(self).sort_order,
            ),
            final(self).file_list == old(self).file_list,
            final(self).tagged == old(self).tagged,
            final(self).file_filter == old(self).file_filter,
            final(self).hidden_files == old(self).hidden_files,
    {
        self.sort_by = sort_by;
        self.sort_order = sort_order;
        self.refilter(mounter);
    }

    /// Shows hidden files when they were hidden, and hides them otherwise.
    pub fn toggle_hidden(&mut self, mounter: Option<&ArchiveMounter>)
        requires
            old(self).wf(),
        ensures
            final(self).wf(),
            final(self).hidden_files == match old(self).hidden_files {
                HiddenFiles::Show => HiddenFiles::Hide,
                HiddenFiles::Hide => HiddenFiles::Show,
            },
            in_sort_order(
                final(self).shown@,
                filtered(old(self).file_list@, final(self).hidden_files, old(self).file_filter@),
                final(self).sort_by,
                final(self).sort_order,
            ),
            final(self).file_list == old(self).file_list,
            final(self).tagged == old(self).tagged,
            final(self).file_filter == old(self).file_filter,
    {
        self.hidden_files = match self.hidden_files {
            HiddenFiles::Show => HiddenFiles::Hide,
            HiddenFiles::Hide => HiddenFiles::Show,
        };
        self.refilter(mounter);
    }

    /// Sets the filter; the entries are filtered anew when it changed.
    /// True when it changed.
    pub fn set_filter(&mut self, filter: &str, mounter: Option<&ArchiveMounter>) -> (changed: bool)
        requires
            old(self).wf(),
        ensures
            final(self).wf(),
            changed == (filter@ != old(self).file_filter@),
            final(self).file_filter@ == filter@,
            changed ==> in_sort_order(
                final(self).shown@,
                filtered(old(self).file_list@, old(self).hidden_files, filter@),
                final(self).sort_by,
                final(self).sort_order,
            ),
            !changed ==> final(self).shown == old(self).shown && final(self).cursor == old(self).cursor,
            final(self).file_list == old(self).file_list,
            final(self).tagged == old(self).tagged,
    {
        if crate::strings::str_eq(filter, self.file_filter.as_str()) {
            return false;
        }
        self.file_filter = filter.to_string();
        self.refilter(mounter);
        true
    }

    /// Escape: drops the pending leader, and clears the filter when there is
    /// one.  True when the filter was cleared.
    pub fn escape(&mut self, mounter: Option<&ArchiveMounter>) -> (cleared: bool)
        requires
            old(self).wf(),
        ensures
            final(self).wf(),
            final(self).leader is None,
            cleared == (old(self).file_filter@.len() > 0),
            final(self).file_filter@.len() == 0,
            cleared ==> in_sort_order(
                final(self).shown@,
                filtered(old(self).file_list@, old(self).hidden_files, Seq::empty()),
                final(self).sort_by,
                final(self).sort_order,
            ),
            !cleared ==> final(self).shown == old(self).shown && final(self).cursor == old(self).cursor,
            final(self).file_list == old(self).file_list,
            final(self).tagged == old(self).tagged,
    {
        self.leader = None;
        if self.file_filter.as_str().unicode_len() == 0 {
            return false;
        }
        self.file_filter = String::new();
        self.refilter(mounter);
        true
    }

    /// Forgets what belonged to the previous directory: the filter, the tags,
    /// the cursor and the view; `selected` is the file to select once the new
    /// listing is read.
    pub fn changed_directory(&mut self, selected: Option<String>)
        requires
            old(self).wf(),
        ensures
            final(self).wf(),
            final(self).file_filter@.len() == 0,
            final(self).tagged@.len() == 0,
            final(self).cursor == 0,
            final(self).first_line == 0,
            final(self).selected_file == selected,
            final(self).shown == old(self).shown,
            final(self).file_list == old(self).file_list,
    {
        self.file_filter = String::new();
        self.tagged = Vec::new();
        self.cursor = 0;
        self.first_line = 0;
        self.selected_file = selected;
    }

    /// Moves the cursor to the entry at `row` of the view, when there is
    /// one; true when the cursor moved.
    pub fn handle_click(&mut self, row: usize) -> (moved: bool)
        requires
            old(self).wf(),
        ensures
            final(self).wf(),
            final(self).cursor == if old(self).first_line + row < old(self).shown@.len() {
                old(self).first_line + row
            } else {
                old(self).cursor as int
            },
            moved == (final(self).cursor != old(self).cursor),
            *final(self) == (FilePanelState { cursor: final(self).cursor, ..*old(self) }),
    {
        if self.first_line < self.shown.len() && row < self.shown.len() - self.first_line {
            let old_cursor = self.cursor;
            self.cursor = self.first_line + row;
            self.cursor != old_cursor
        } else {
            false
        }
    }

    /// Handles a mouse event: a left click moves the cursor, a right click
    /// moves it and toggles the tag, the wheel scrolls the view and drags the
    /// cursor along at its edge.  True when the cursor moved.
    pub fn handle_mouse(&mut self, ev: PanelMouse) -> (moved: bool)
        requires
            old(self).wf(),
            ev is WheelUp ==> old(self).first_line <= old(self).cursor + 1,
            ev is WheelDown && old(self).shown@.len() > 0 ==> old(self).height >= 1,
        ensures
            final(self).wf(),
            moved == (final(self).cursor != old(self).cursor),
            match ev {
                PanelMouse::Left(Some(row)) | PanelMouse::Right(Some(row)) => final(self).cursor == if old(
                    self,
                ).first_line + row < old(self).shown@.len() {
                    old(self).first_line + row
                } else {
                    old(self).cursor as int
                },
                PanelMouse::WheelUp => {
                    let first = sat_sub(old(self).first_line as int, 1);
                    &&& final(self).first_line == first
                    &&& final(self).cursor == if old(self).cursor - first > sat_sub(old(self).height as int, 1) {
                        old(self).cursor - 1
                    } else {
                        old(self).cursor as int
                    }
                },
                PanelMouse::WheelDown => {
                    let first = clamp_first_line_spec(
                        sat_add(old(self).first_line as int, 1),
                        old(self).height as int,
                        old(self).shown@.len() as int,
                    );
                    &&& final(self).first_line == first
                    &&& final(self).cursor == if first > old(self).cursor { first } else { old(self).cursor as int }
                },
                _ => final(self).cursor == old(self).cursor && final(self).first_line == old(self).first_line,
            },
            final(self).tagged@ == match ev {
                PanelMouse::Right(Some(_)) => if old(self).shown@.len() == 0 {
                    old(self).tagged@
                } else {
                    tag_op(TagOp::Toggle, old(self).tagged@, final(self).current())
                },
                _ => old(self).tagged@,
            },
            final(self).shown == old(self).shown,
            final(self).file_list == old(self).file_list,
    {
        match ev {
            PanelMouse::Left(Some(row)) => self.handle_click(row),
            PanelMouse::Right(Some(row)) => {
                let moved = self.handle_click(row);
                self.tag_current(TagOp::Toggle);
                moved
            },
            PanelMouse::WheelUp => {
                self.first_line = self.first_line.saturating_sub(1);
                let page = self.height.saturating_sub(1);
                if self.cursor - self.first_line > page {
                    self.cursor = self.cursor - 1;
                    true
                } else {
                    false
                }
            },
            PanelMouse::WheelDown => {
                self.first_line = self.first_line.saturating_add(1);
                self.clamp_first_line();
                if self.first_line > self.cursor {
                    self.cursor = self.first_line;
                    true
                } else {
                    false
                }
            },
            _ => false,
        }
    }

    /// Before drawing a list area of `height` lines: keeps the view within
    /// the entries and scrolls it so that the cursor is in it.
    pub fn scroll_into_view(&mut self, height: usize)
        requires
            old(self).wf(),
        ensures
            final(self).wf(),
            final(self).height == height,
            final(self).first_line <= final(self).cursor,
            final(self).cursor - final(self).first_line <= sat_sub(height as int, 1),
            ({
                let f = clamp_first_line_spec(old(self).first_line as int, height as int, old(self).shown@.len() as int);
                let f2 = if f > old(self).cursor { old(self).cursor as int } else { f };
                final(self).first_line == if old(self).cursor - f2 > sat_sub(height as int, 1) {
                    old(self).cursor - sat_sub(height as int, 1)
                } else {
                    f2
                }
            }),
            *final(self) == (FilePanelState {
                height: final(self).height,
                first_line: final(self).first_line,
                ..*old(self)
            }),
    {
        self.height = height;
        self.clamp_first_line();
        if self.first_line > self.cursor {
            self.first_line = self.cursor;
        }
        let page = height.saturating_sub(1);
        if self.cursor - self.first_line > page {
            self.first_line = self.cursor.saturating_sub(page);
        }
    }

    /// Applies `op` to the tags of each shown entry whose name the glob
    /// (compiled with `RegexMatcher::glob`) matches, first to last.
    pub fn tag_glob(&mut self, glob: &RegexMatcher, op: TagOp)
        requires
            old(self).wf(),
            glob.ignores_case(),
        ensures
            final(self).wf(),
            final(self).tagged@ == tag_matching(op, old(self).tagged@, old(self).shown@, glob.pattern()),
            *final(self) == (FilePanelState { tagged: final(self).tagged, ..*old(self) }),
    {
        let ghost t0 = self.tagged@;
        let mut k: usize = 0;
        assert(self.shown@.take(0) =~= Seq::<Entry>::empty());
        while k < self.shown.len()
            invariant
                k <= self.shown@.len(),
                self.tagged@ == tag_matching(op, t0, self.shown@.take(k as int), glob.pattern()),
                glob.ignores_case(),
                *self == (FilePanelState { tagged: self.tagged, ..*old(self) }),
            decreases self.shown.len() - k,
        {
            let e = self.shown[k].duplicate();
            assert(self.shown@.take(k + 1).drop_last() =~= self.shown@.take(k as int));
            if glob.is_match(e.file_name.as_str()) {
                self.apply_tag_op(op, &e);
            }
            k += 1;
        }
        assert(self.shown@.take(k as int) =~= self.shown@);
    }

    /// Moves the cursor one entry up; true when it moved.
    pub fn handle_up(&mut self) -> (moved: bool)
        requires
            old(self).wf(),
        ensures
            final(self).wf(),
            final(self).cursor == clamp_cursor_spec(
                sat_sub(old(self).cursor as int, 1),
                old(self).shown@.len() as int,
            ),
            moved == (final(self).cursor != old(self).cursor),
            *final(self) == (FilePanelState { cursor: final(self).cursor, ..*old(self) }),
    {
        let old_cursor = self.cursor;
        self.cursor = self.clamp_cursor(self.cursor.saturating_sub(1));
        self.cursor != old_cursor
    }

    /// Moves the cursor one entry down; true when it moved.
    pub fn handle_down(&mut self) -> (moved: bool)
        requires
            old(self).wf(),
        ensures
            final(self).wf(),
            final(self).cursor == clamp_cursor_spec(
                sat_add(old(self).cursor as int, 1),
                old(self).shown@.len() as int,
            ),
            moved == (final(self).cursor != old(self).cursor),
            *final(self) == (FilePanelState { cursor: final(self).cursor, ..*old(self) }),
    {
        let old_cursor = self.cursor;
        self.cursor = self.clamp_cursor(self.cursor.saturating_add(1));
        self.cursor != old_cursor
    }

    /// Moves the cursor to the first entry; true when it moved.
    pub fn handle_home(&mut self) -> (moved: bool)
        requires
            old(self).wf(),
        ensures
            final(self).wf(),
            final(self).cursor == 0,
            moved == (old(self).cursor != 0),
            *final(self) == (FilePanelState { cursor: 0, ..*old(self) }),
    {
        let old_cursor = self.cursor;
        self.cursor = 0;
        self.cursor != old_cursor
    }

    /// Moves the cursor to the last entry; true when it moved.
    pub fn handle_end(&mut self) -> (moved: bool)
        requires
            old(self).wf(),
        ensures
            final(self).wf(),
            final(self).cursor == clamp_cursor_spec(
                old(self).shown@.len() as int,
                old(self).shown@.len() as int,
            ),
            moved == (final(self).cursor != old(self).cursor),
            *final(self) == (FilePanelState { cursor: final(self).cursor, ..*old(self) }),
    {
        let old_cursor = self.cursor;
        self.cursor = self.clamp_cursor(self.shown.len());
        self.cursor != old_cursor
    }

    /// Moves the cursor and the view a page (the height less one line) up;
    /// true when the cursor moved.
    pub fn handle_page_up(&mut self) -> (moved: bool)
        requires
            old(self).wf(),
        ensures
            final(self).wf(),
            ({
                let page = sat_sub(old(self).height as int, 1);
                let len = old(self).shown@.len() as int;
                &&& final(self).cursor == clamp_cursor_spec(sat_sub(old(self).cursor as int, page), len)
                &&& final(self).first_line == clamp_first_line_spec(
                    sat_sub(old(self).first_line as int, page),
                    old(self).height as int,
                    len,
                )
            }),
            moved == (final(self).cursor != old(self).cursor),
            *final(self) == (FilePanelState {
                cursor: final(self).cursor,
                first_line: final(self).first_line,
                ..*old(self)
            }),
    {
        let page = self.height.saturating_sub(1);
        let old_cursor = self.cursor;
        self.cursor = self.clamp_cursor(self.cursor.saturating_sub(page));
        self.first_line = self.first_line.saturating_sub(page);
        self.clamp_first_line();
        self.cursor != old_cursor
    }

    /// Moves the cursor and the view a page (the height less one line)
    /// down; true when the cursor moved.
    pub fn handle_page_down(&mut self) -> (moved: bool)
        requires
            old(self).wf(),
        ensures
            final(self).wf(),
            ({
                let page = sat_sub(old(self).height as int, 1);
                let len = old(self).shown@.len() as int;
                &&& final(self).cursor == clamp_cursor_spec(sat_add(old(self).cursor as int, page), len)
                &&& final(self).first_line == clamp_first_line_spec(
                    sat_add(old(self).first_line as int, page),
                    old(self).height as int,
                    len,
                )
            }),
            moved == (final(self).cursor != old(self).cursor),
            *final(self) == (FilePanelState {
                cursor: final(self).cursor,
                first_line: final(self).first_line,
                ..*old(self)
            }),
    {
        let page = self.height.saturating_sub(1);
        let old_cursor = self.cursor;
        self.cursor = self.clamp_cursor(self.cursor.saturating_add(page));
        self.first_line = self.first_line.saturating_add(page);
        self.clamp_first_line();
        self.cursor != old_cursor
    }
}


proof fn lemma_position_push(t: Seq<Entry>, e: Entry, f: Seq<char>, i: int)
    requires
        0 <= i <= t.len(),
    ensures
        tag_position_from(t.push(e), f, i) == match tag_position_from(t, f, i) {
            Some(j) => Some(j),
            None => if names_file(e, f) { Some(t.len() as int) } else { None },
        },
    decreases t.len() - i,
{
    if i < t.len() {
        assert(t.push(e)[i] == t[i]);
        lemma_position_push(t, e, f, i + 1);
    } else {
        assert(t.push(e)[i] == e);
        assert(tag_position_from(t.push(e), f, i + 1) is None);
    }
}

/// Tagging an untagged entry and untagging it again leaves the tags as they
/// were.
pub proof fn law_tag_then_untag(tagged: Seq<Entry>, e: Entry)
    requires
        !is_tagged(tagged, e.file@),
    ensures
        tag_op(TagOp::Untag, tag_op(TagOp::Tag, tagged, e), e) == tagged,
        tag_op(TagOp::Toggle, tag_op(TagOp::Toggle, tagged, e), e) == tagged,
{
    lemma_position_push(tagged, e, e.file@, 0);
    let t1 = tagged.push(e);
    assert(swapped_last(t1) =~= tagged);
}

spec fn swapped_last(t: Seq<Entry>) -> Seq<Entry> {
    swap_removed(t, t.len() - 1)
}

/// An entry is tagged once it has been tagged.
pub proof fn law_tag_marks(tagged: Seq<Entry>, e: Entry)
    ensures
        is_tagged(tag_op(TagOp::Tag, tagged, e), e.file@),
        is_tagged(tagged, e.file@) || is_tagged(tag_op(TagOp::Toggle, tagged, e), e.file@),
{
    lemma_position_push(tagged, e, e.file@, 0);
}

proof fn lemma_tag_keeps(tagged: Seq<Entry>, e: Entry, f: Seq<char>)
    requires
        is_tagged(tagged, f),
    ensures
        is_tagged(tag_op(TagOp::Tag, tagged, e), f),
{
    lemma_position_push(tagged, e, f, 0);
}

/// After tagging all shown entries, every one of them is tagged, and so is
/// every file that was tagged before.
pub proof fn law_tag_all(tagged: Seq<Entry>, shown: Seq<Entry>, f: Seq<char>)
    requires
        is_tagged(tagged, f) || exists|i: int| 0 <= i < shown.len() && (#[trigger] shown[i]).file@ == f,
    ensures
        is_tagged(tag_each(TagOp::Tag, tagged, shown), f),
    decreases shown.len(),
{
    if shown.len() > 0 {
        let rest = shown.drop_last();
        if is_tagged(tagged, f) || exists|i: int| 0 <= i < rest.len() && (#[trigger] rest[i]).file@ == f {
            if !is_tagged(tagged, f) {
                let i = choose|i: int| 0 <= i < rest.len() && (#[trigger] rest[i]).file@ == f;
                assert(rest[i] == shown[i]);
            }
            law_tag_all(tagged, rest, f);
            lemma_tag_keeps(tag_each(TagOp::Tag, tagged, rest), shown.last(), f);
        } else {
            let i = choose|i: int| 0 <= i < shown.len() && (#[trigger] shown[i]).file@ == f;
            if i < rest.len() {
                assert(rest[i] == shown[i]);
            }
            assert(shown.last().file@ == f);
            law_tag_marks(tag_each(TagOp::Tag, tagged, rest), shown.last());
        }
    }
}

/// Moving the cursor down and then up brings it back, when it was not on
/// the last entry.
pub proof fn law_down_then_up(cursor: int, len: int)
    requires
        0 <= cursor,
        cursor + 1 < len,
        len <= usize::MAX,
    ensures
        clamp_cursor_spec(sat_sub(clamp_cursor_spec(sat_add(cursor, 1), len), 1), len) == cursor,
{
}

/// Any key after a leader drops it: no leader is pending afterwards.
pub proof fn law_key_after_leader(s: FilePanelState, leader: char, key: PanelKey)
    ensures
        s.leader_after(key_command(Some(leader), key)) is None,
{
}

/// The letter that, after the `s` leader, sorts by `sort_by` in
/// `sort_order`: the initial of the sort key's name, lower case for the
/// normal order and upper case for the reverse one.
pub open spec fn sort_letter(sort_by: SortBy, sort_order: SortOrder) -> char {
    let lower = match sort_by {
        SortBy::Name => 'n',
        SortBy::Extension => 'e',
        SortBy::Date => 'd',
        SortBy::Size => 's',
    };
    match sort_order {
        SortOrder::Normal => lower,
        SortOrder::Reverse => ((lower as u32) - 32) as char,
    }
}

/// After the `s` leader, a key sorts the files exactly when it is the
/// letter of a sort key and order, and then by that key in that order.
pub proof fn law_sort_leader(c: char, sort_by: SortBy, sort_order: SortOrder)
    ensures
        key_command(Some('s'), PanelKey::Char(c)) == Command::Sort(sort_by, sort_order) <==> c == sort_letter(
            sort_by,
            sort_order,
        ),
        key_command(Some('s'), PanelKey::Char(c)) is Sort || key_command(Some('s'), PanelKey::Char(c))
            == Command::Unhandled,
{
    assert(('n' as u32) - 32 == 'N' as u32);
    assert(('e' as u32) - 32 == 'E' as u32);
    assert(('d' as u32) - 32 == 'D' as u32);
    assert(('s' as u32) - 32 == 'S' as u32);
}

/// After the `m` leader a bookmark key sets that bookmark, and after the
/// backquote (or quote) leader it goes to it; other keys do nothing.
pub proof fn law_bookmark_leaders(c: char)
    ensures
        key_command(Some('m'), PanelKey::Char(c)) == if is_bookmark_key(c) {
            Command::SetBookmark(c)
        } else {
            Command::Unhandled
        },
        is_bookmark_key(c) ==> key_command(Some('`'), PanelKey::Char(c)) == Command::GotoBookmark(c),
        key_command(Some('`'), PanelKey::Char('`')) == Command::ChdirOldCwd,
        key_command(Some('`'), PanelKey::Char('\'')) == Command::ChdirOldCwd,
{
}

} // verus!
