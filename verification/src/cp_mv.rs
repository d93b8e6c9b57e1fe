//! The decisions of a copy or move job: the block size of the copy, where an
//! interrupted copy resumes, what to do with an existing target, and the
//! names given to renamed files.  The file operations themselves are the
//! caller's.

use vstd::prelude::*;
use std::time::Duration;
use crate::database::{
    DBDirListEntry, DBFileEntry, DBFileStatus, DBJobOperation, DBJobStatus, DBRenameDirEntry, DBSkipDirEntry,
    OnConflict,
};
use crate::paths::{has_ancestor, join, path_diff, path_has_ancestor, path_join, relative_to};
use crate::names::{decimal, push_decimal_u64};
use crate::strings::{chars_of, push_str};
use vstd::arithmetic::div_mod::lemma_fundamental_div_mod_converse;

verus! {

broadcast use vstd::string::group_string_axioms;

/// Trusted: `Duration` is `Copy`, so its `clone` returns the same duration.
pub assume_specification[ <Duration as Clone>::clone ](d: &Duration) -> (r: Duration)
    ensures
        r == *d,
;

/// Whether a job copies or moves.
#[derive(Debug, Clone, Copy, PartialEq, Eq, Structural)]
pub enum DlgCpMvType {
    Cp,
    Mv,
}

/// The progress of a copy or move job, as shown to the user.
#[derive(Debug, Clone)]
pub struct CpMvInfo {
    pub cur_source: String,
    pub cur_target: String,
    pub cur_size: u64,
    pub cur_bytes: u64,
    pub cur_time: Duration,
    pub num_files: usize,
    pub total_bytes: u64,
    pub total_time: Duration,
}

/// The outcome of a copy or move job.
#[derive(Debug, Clone)]
pub struct CpMvResult {
    pub files: Vec<DBFileEntry>,
    pub dirs: Vec<DBDirListEntry>,
    pub status: DBJobStatus,
}

/// The block size used when copying: the default of 128 KiB rounded up to
/// a multiple of the file system's block size.
pub const DEFAULT_BLOCK_SIZE: i64 = 131072;

pub open spec fn block_size_spec(fs_block_size: Option<i64>) -> int {
    match fs_block_size {
        Some(b) => DEFAULT_BLOCK_SIZE + (b - DEFAULT_BLOCK_SIZE) % (b as int),
        None => DEFAULT_BLOCK_SIZE as int,
    }
}

/// The copy block size for a target on a file system with the given block
/// size (none when it could not be read).
pub fn block_size(fs_block_size: Option<i64>) -> (r: u64)
    requires
        fs_block_size matches Some(b) ==> b > 0,
    ensures
        r == block_size_spec(fs_block_size),
{
    match fs_block_size {
        Some(b) => {
            let bb = b as u64;
            let d: u64 = 131072;
            let rem: u64 = if bb >= d {
                let diff = bb - d;
                let r = diff % bb;
                let q = diff / bb;
                proof {
                    assert(diff == q * bb + r && 0 <= r < bb) by (nonlinear_arith)
                        requires
                            bb > 0,
                            q == diff / bb,
                            r == diff % bb,
                    ;
                    lemma_fundamental_div_mod_converse(b - DEFAULT_BLOCK_SIZE, b as int, q as int, r as int);
                }
                r
            } else {
                let x = d - bb;
                let r0 = x % bb;
                let qx = x / bb;
                assert(x == qx * bb + r0 && 0 <= r0 < bb) by (nonlinear_arith)
                    requires
                        bb > 0,
                        qx == x / bb,
                        r0 == x % bb,
                ;
                assert((-qx) * bb == -(qx * bb) && (-qx - 1) * bb == -(qx * bb) - bb) by (nonlinear_arith);
                if r0 == 0 {
                    proof {
                        lemma_fundamental_div_mod_converse(b - DEFAULT_BLOCK_SIZE, b as int, -qx, 0);
                    }
                    0
                } else {
                    proof {
                        lemma_fundamental_div_mod_converse(
                            b - DEFAULT_BLOCK_SIZE,
                            b as int,
                            -qx - 1,
                            bb - r0,
                        );
                    }
                    bb - r0
                }
            };
            assert(rem < bb);
            assert(bb <= i64::MAX);
            d + rem
        },
        None => DEFAULT_BLOCK_SIZE as u64,
    }
}

/// The block size is the smallest multiple of the file system block size
/// that is at least the default.
pub proof fn law_block_size_multiple(b: i64)
    requires
        b > 0,
    ensures
        block_size_spec(Some(b)) % (b as int) == 0,
        DEFAULT_BLOCK_SIZE <= block_size_spec(Some(b)) < DEFAULT_BLOCK_SIZE + b,
{
    let d = DEFAULT_BLOCK_SIZE as int;
    let bi = b as int;
    assert((d + (bi - d) % bi) % bi == 0 && 0 <= (bi - d) % bi < bi) by (nonlinear_arith)
        requires
            bi > 0,
    ;
}

/// Where a copy that was interrupted resumes: the last whole block before
/// the end of what was written, less one block, so that the last block
/// written is copied again.
pub fn resume_offset(written: u64, block_size: u64) -> (r: u64)
    requires
        block_size > 0,
    ensures
        r == (if written / block_size >= 1 { written / block_size - 1 } else { 0 }) * block_size,
        r <= written,
{
    let blocks = written / block_size;
    let n = if blocks >= 1 { blocks - 1 } else { 0 };
    assert(n * block_size <= written) by (nonlinear_arith)
        requires
            n <= written / block_size,
            block_size > 0,
    ;
    n * block_size
}

/// A file of the job still to be done (not done, skipped or failed before).
pub fn needs_processing(status: DBFileStatus) -> (r: bool)
    ensures
        r == !(status == DBFileStatus::Error || status == DBFileStatus::Skipped || status
            == DBFileStatus::Done),
{
    match status {
        DBFileStatus::Error | DBFileStatus::Skipped | DBFileStatus::Done => false,
        _ => true,
    }
}

/// The target exists and must be dealt with: not inside a directory moved
/// as a whole, and not a directory copied into an existing directory.
pub fn has_conflict(target_exists: bool, skip_dir: bool, entry_is_dir: bool, target_is_dir: bool) -> (r: bool)
    ensures
        r == (target_exists && !skip_dir && !(entry_is_dir && target_is_dir)),
{
    target_exists && !skip_dir && !(entry_is_dir && target_is_dir)
}

/// What is done with an existing target.
#[derive(Debug, Clone, Copy, PartialEq, Eq, Structural)]
pub enum ConflictAction {
    /// Source and target are the same file: skip ("Same file").
    SameFile,
    /// Remove the target first ("Overwrite").
    Overwrite,
    /// Rename the existing target out of the way (to a `.fcdsave` name).
    RenameExisting,
    /// Copy under a new name (a `.fcdnew` name).
    RenameCopy,
    /// Leave the target and skip the file ("Target exists").
    Skip,
}

/// The action for an existing target.  A move onto the same file, or a copy
/// onto the same file that would not rename either, is skipped.
pub fn conflict_action(mode: DlgCpMvType, on_conflict: OnConflict, same_file: bool) -> (r: ConflictAction)
    ensures
        r == if same_file && (mode == DlgCpMvType::Mv || !(on_conflict == OnConflict::RenameExisting
            || on_conflict == OnConflict::RenameCopy)) {
            ConflictAction::SameFile
        } else {
            match on_conflict {
                OnConflict::Overwrite => ConflictAction::Overwrite,
                OnConflict::RenameExisting => ConflictAction::RenameExisting,
                OnConflict::RenameCopy => ConflictAction::RenameCopy,
                OnConflict::Skip => ConflictAction::Skip,
            }
        },
{
    if same_file && (mode == DlgCpMvType::Mv || !(on_conflict == OnConflict::RenameExisting
        || on_conflict == OnConflict::RenameCopy)) {
        return ConflictAction::SameFile;
    }
    match on_conflict {
        OnConflict::Overwrite => ConflictAction::Overwrite,
        OnConflict::RenameExisting => ConflictAction::RenameExisting,
        OnConflict::RenameCopy => ConflictAction::RenameCopy,
        OnConflict::Skip => ConflictAction::Skip,
    }
}

/// The message a file gets from what was done with its existing target:
/// `renamed` is the name the target or the copy got, for the renaming
/// actions.
pub open spec fn conflict_message_spec(action: ConflictAction, renamed: Seq<char>) -> Seq<char> {
    match action {
        ConflictAction::SameFile => "Same file"@,
        ConflictAction::Overwrite => "Overwrite"@,
        ConflictAction::RenameExisting | ConflictAction::RenameCopy => "Renamed to "@ + renamed,
        ConflictAction::Skip => "Target exists"@,
    }
}

pub fn conflict_message(action: ConflictAction, renamed: &str) -> (r: String)
    ensures
        r@ == conflict_message_spec(action, renamed@),
{
    match action {
        ConflictAction::SameFile => "Same file".to_string(),
        ConflictAction::Overwrite => "Overwrite".to_string(),
        ConflictAction::RenameExisting | ConflictAction::RenameCopy => {
            let mut r = "Renamed to ".to_string();
            push_str(&mut r, renamed);
            r
        },
        ConflictAction::Skip => "Target exists".to_string(),
    }
}

/// How a file is copied.
#[derive(Debug, Clone, Copy, PartialEq, Eq, Structural)]
pub enum CopyKind {
    /// A link with the same target is made.
    Symlink,
    /// The directory is made (unless the target is one) and its metadata
    /// set later.
    Directory,
    /// The contents are copied.
    File,
    /// Anything else is refused ("Special file").
    Special,
}

/// How an entry is copied, from its type.
pub fn copy_kind(is_symlink: bool, is_dir: bool, is_file: bool) -> (r: CopyKind)
    ensures
        r == if is_symlink {
            CopyKind::Symlink
        } else if is_dir {
            CopyKind::Directory
        } else if is_file {
            CopyKind::File
        } else {
            CopyKind::Special
        },
{
    if is_symlink {
        CopyKind::Symlink
    } else if is_dir {
        CopyKind::Directory
    } else if is_file {
        CopyKind::File
    } else {
        CopyKind::Special
    }
}

/// A move is first tried as a rename, unless the target is an existing
/// directory to merge into.
pub fn rename_first(mode: DlgCpMvType, target_is_dir: bool) -> (r: bool)
    ensures
        r == (mode == DlgCpMvType::Mv && !target_is_dir),
{
    mode == DlgCpMvType::Mv && !target_is_dir
}

/// After a move that had to copy, the source file is removed (directories
/// are removed once their contents are done).
pub fn removes_source(mode: DlgCpMvType, copied: bool, is_dir: bool) -> (r: bool)
    ensures
        r == (mode == DlgCpMvType::Mv && copied && !is_dir),
{
    mode == DlgCpMvType::Mv && copied && !is_dir
}

/// The kind of a failed file operation that the copy treats apart.
#[derive(Debug, Clone, Copy, PartialEq, Eq, Structural)]
pub enum IoFailure {
    PermissionDenied,
    Unsupported,
    Other,
}

/// What follows an attempt to give a copy its owner and group.
#[derive(Debug, Clone, Copy, PartialEq, Eq, Structural)]
pub enum ChownNext {
    /// Nothing more to do.
    Done,
    /// Not allowed: try the group alone.
    GroupOnly,
    /// The copy fails.
    Fail,
}

/// After setting owner and group (`None`: it worked): a refusal leads to
/// setting the group alone, a file system without owners is accepted.
pub fn chown_next(failure: Option<IoFailure>) -> (r: ChownNext)
    ensures
        r == match failure {
            None => ChownNext::Done,
            Some(IoFailure::PermissionDenied) => ChownNext::GroupOnly,
            Some(IoFailure::Unsupported) => ChownNext::Done,
            Some(IoFailure::Other) => ChownNext::Fail,
        },
{
    match failure {
        None => ChownNext::Done,
        Some(IoFailure::PermissionDenied) => ChownNext::GroupOnly,
        Some(IoFailure::Unsupported) => ChownNext::Done,
        Some(IoFailure::Other) => ChownNext::Fail,
    }
}

/// After setting the group alone: only an error other than a refusal or
/// an unsupported file system fails the copy.
pub fn group_only_fails(failure: Option<IoFailure>) -> (r: bool)
    ensures
        r == (failure == Some(IoFailure::Other)),
{
    match failure {
        Some(IoFailure::Other) => true,
        _ => false,
    }
}

/// The `i`-th name tried for an existing target renamed out of the way.
pub open spec fn save_name_spec(name: Seq<char>, i: nat) -> Seq<char> {
    name + ".fcdsave"@ + decimal(i)
}

/// The `i`-th name tried for a copy made beside an existing target.
pub open spec fn new_name_spec(name: Seq<char>, i: nat) -> Seq<char> {
    name + ".fcdnew"@ + decimal(i)
}

pub fn save_name(name: &str, i: u64) -> (r: String)
    ensures
        r@ == save_name_spec(name@, i as nat),
{
    let mut r = name.to_string();
    push_str(&mut r, ".fcdsave");
    push_decimal_u64(&mut r, i);
    r
}

pub fn new_name(name: &str, i: u64) -> (r: String)
    ensures
        r@ == new_name_spec(name@, i as nat),
{
    let mut r = name.to_string();
    push_str(&mut r, ".fcdnew");
    push_decimal_u64(&mut r, i);
    r
}

/// The message of a file whose copy resumes: `Resumed`, prefixed to the
/// earlier message unless it already says so.
pub open spec fn resumed_message_spec(message: Seq<char>) -> Seq<char> {
    if message.len() == 0 {
        "Resumed"@
    } else if !(message.len() >= 7 && message.take(7) == "Resumed"@) {
        "Resumed -- "@ + message
    } else {
        message
    }
}

pub fn resumed_message(message: &str) -> (r: String)
    ensures
        r@ == resumed_message_spec(message@),
{
    proof {
        reveal_strlit("Resumed");
        reveal_strlit("Resumed -- ");
    }
    let v = chars_of(message);
    if v.len() == 0 {
        return "Resumed".to_string();
    }
    let prefix = chars_of("Resumed");
    let mut starts = v.len() >= 7;
    let mut k: usize = 0;
    while starts && k < 7
        invariant
            prefix@ == "Resumed"@,
            prefix@.len() == 7,
            v@ == message@,
            k <= 7,
            starts ==> v@.len() >= 7 && forall|j: int| 0 <= j < k ==> v@[j] == prefix@[j],
            !starts ==> !(v@.len() >= 7 && v@.take(7) == "Resumed"@),
        decreases 7 - k,
    {
        if v[k] != prefix[k] {
            starts = false;
            assert(v@.take(7)[k as int] != "Resumed"@[k as int]);
        }
        k += 1;
    }
    if starts {
        assert(v@.take(7) =~= "Resumed"@);
        message.to_string()
    } else {
        let mut r = "Resumed -- ".to_string();
        push_str(&mut r, message);
        r
    }
}


/// How many of the directories moved as a whole stay on the stack for
/// `file`: those up to the topmost one that `file` lies in.
pub open spec fn skip_kept(stack: Seq<DBSkipDirEntry>, file: Seq<char>) -> int
    decreases stack.len(),
{
    if stack.len() == 0 {
        0
    } else if path_has_ancestor(file, stack.last().file@) {
        stack.len() as int
    } else {
        skip_kept(stack.drop_last(), file)
    }
}

/// The ids of the entries from `k` on, last first (the order they are
/// popped in).
pub open spec fn popped_ids<T>(stack: Seq<T>, k: int, id: spec_fn(T) -> i64) -> Seq<i64> {
    Seq::new((stack.len() - k) as nat, |j: int| id(stack[stack.len() - 1 - j]))
}

proof fn lemma_skip_kept_bounds(stack: Seq<DBSkipDirEntry>, file: Seq<char>)
    ensures
        0 <= skip_kept(stack, file) <= stack.len(),
        skip_kept(stack, file) > 0 ==> path_has_ancestor(file, stack[skip_kept(stack, file) - 1].file@),
    decreases stack.len(),
{
    if stack.len() > 0 && !path_has_ancestor(file, stack.last().file@) {
        lemma_skip_kept_bounds(stack.drop_last(), file);
        let k = skip_kept(stack.drop_last(), file);
        if k > 0 {
            assert(stack.drop_last()[k - 1] == stack[k - 1]);
        }
    }
}

/// Before a file of a move: pops the directories moved as a whole that the
/// file is not in, and tells whether it lies in the one left on top (then
/// there is nothing to do for it).  Gives back the ids popped, last first.
pub fn unwind_skip_dirs(stack: &mut Vec<DBSkipDirEntry>, file: &str) -> (r: (bool, Vec<i64>))
    ensures
        ({
            let k = skip_kept(old(stack)@, file@);
            &&& final(stack)@ == old(stack)@.take(k)
            &&& r.0 == (k > 0)
            &&& r.1@ == popped_ids(old(stack)@, k, |e: DBSkipDirEntry| e.id)
        }),
{
    let ghost s0 = stack@;
    let mut popped: Vec<i64> = Vec::new();
    proof {
        lemma_skip_kept_bounds(s0, file@);
    }
    while stack.len() > 0
        invariant
            s0 == old(stack)@,
            stack@.len() <= s0.len(),
            stack@ == s0.take(stack@.len() as int),
            skip_kept(s0, file@) == skip_kept(stack@, file@),
            popped@ == popped_ids(s0, stack@.len() as int, |e: DBSkipDirEntry| e.id),
        decreases stack.len(),
    {
        let n = stack.len();
        if has_ancestor(file, stack[n - 1].file.as_str()) {
            assert(stack@.last() == stack@[n - 1]);
            assert(skip_kept(stack@, file@) == n);
            return (true, popped);
        }
        let e = stack.pop().unwrap();
        proof {
            assert(stack@ =~= s0.take((n - 1) as int));
            assert(s0.take(n as int).drop_last() =~= stack@);
        }
        popped.push(e.id);
        assert(popped@ =~= popped_ids(s0, stack@.len() as int, |e: DBSkipDirEntry| e.id));
    }
    (false, popped)
}

/// How many of the directories copied under new names stay on the stack
/// for the target `target`: those up to the topmost one it lies in.
pub open spec fn rename_kept(stack: Seq<DBRenameDirEntry>, target: Seq<char>) -> int
    decreases stack.len(),
{
    if stack.len() == 0 {
        0
    } else if path_has_ancestor(target, stack.last().existing_target@) {
        stack.len() as int
    } else {
        rename_kept(stack.drop_last(), target)
    }
}

/// Where a target goes once the directories it lies in are accounted for.
#[derive(Debug)]
pub enum RenamedTarget {
    /// Not inside a directory copied under a new name.
    Unchanged,
    /// Inside one: the same path under the directory's new name.
    Renamed(String),
    /// Inside one, but with no path relative to it.
    NoRelativePath,
}

proof fn lemma_rename_kept_bounds(stack: Seq<DBRenameDirEntry>, target: Seq<char>)
    ensures
        0 <= rename_kept(stack, target) <= stack.len(),
        rename_kept(stack, target) > 0 ==> path_has_ancestor(target, stack[rename_kept(stack, target) - 1].existing_target@),
    decreases stack.len(),
{
    if stack.len() > 0 && !path_has_ancestor(target, stack.last().existing_target@) {
        lemma_rename_kept_bounds(stack.drop_last(), target);
        let k = rename_kept(stack.drop_last(), target);
        if k > 0 {
            assert(stack.drop_last()[k - 1] == stack[k - 1]);
        }
    }
}

/// Before a file of a copy or move: pops the renamed directories its target
/// is not in, and, when it lies in the one left on top, moves the target
/// under that directory's new name.  Gives back the ids popped, last first.
pub fn unwind_rename_dirs(stack: &mut Vec<DBRenameDirEntry>, target: &str) -> (r: (RenamedTarget, Vec<i64>))
    ensures
        ({
            let k = rename_kept(old(stack)@, target@);
            &&& final(stack)@ == old(stack)@.take(k)
            &&& r.1@ == popped_ids(old(stack)@, k, |e: DBRenameDirEntry| e.id)
            &&& if k == 0 {
                r.0 is Unchanged
            } else {
                let top = old(stack)@[k - 1];
                match path_diff(target@, top.existing_target@) {
                    Some(rel) => r.0 matches RenamedTarget::Renamed(t) && t@ == path_join(top.cur_target@, rel),
                    None => r.0 is NoRelativePath,
                }
            }
        }),
{
    let ghost s0 = stack@;
    let mut popped: Vec<i64> = Vec::new();
    proof {
        lemma_rename_kept_bounds(s0, target@);
    }
    while stack.len() > 0
        invariant
            s0 == old(stack)@,
            stack@.len() <= s0.len(),
            stack@ == s0.take(stack@.len() as int),
            rename_kept(s0, target@) == rename_kept(stack@, target@),
            popped@ == popped_ids(s0, stack@.len() as int, |e: DBRenameDirEntry| e.id),
        decreases stack.len(),
    {
        let n = stack.len();
        if has_ancestor(target, stack[n - 1].existing_target.as_str()) {
            assert(stack@.last() == stack@[n - 1]);
            assert(rename_kept(stack@, target@) == n);
            assert(s0[n - 1] == stack@[n - 1]);
            let t = match relative_to(target, stack[n - 1].existing_target.as_str()) {
                Some(rel) => RenamedTarget::Renamed(join(stack[n - 1].cur_target.as_str(), rel.as_str())),
                None => RenamedTarget::NoRelativePath,
            };
            return (t, popped);
        }
        let e = stack.pop().unwrap();
        proof {
            assert(stack@ =~= s0.take((n - 1) as int));
            assert(s0.take(n as int).drop_last() =~= stack@);
        }
        popped.push(e.id);
        assert(popped@ =~= popped_ids(s0, stack@.len() as int, |e: DBRenameDirEntry| e.id));
    }
    (RenamedTarget::Unchanged, popped)
}


/// What the destination of a copy or move, as found on disk, makes of the
/// job.
#[derive(Debug, Clone, Copy, PartialEq, Eq, Structural)]
pub enum DestDecision {
    /// Scan the entries and start the job.
    Proceed,
    /// Nothing would change: the files would land where they are.
    NoOp,
    /// The destination is not a directory (of the destination itself when
    /// several entries are copied, else of its parent).
    NotADirectory(bool),
}

/// Copying or moving a file onto itself does nothing for a move, and for a
/// copy that overwrites or skips existing targets.
pub open spec fn noop_onto_itself(operation: DBJobOperation, on_conflict: OnConflict) -> bool {
    operation == DBJobOperation::Mv || on_conflict == OnConflict::Overwrite || on_conflict == OnConflict::Skip
}

/// The decision for a destination: into a directory (`dest_is_dir`; a no-op
/// when it is the working directory itself), or, for a single entry, as a
/// new name in a directory (a no-op when that directory is the working
/// directory and the name is the entry's own); else an error.
pub fn dest_decision(
    operation: DBJobOperation,
    on_conflict: OnConflict,
    num_entries: usize,
    dest_is_dir: bool,
    dest_is_cwd: bool,
    parent_is_dir: bool,
    parent_is_cwd: bool,
    same_name: bool,
) -> (r: DestDecision)
    ensures
        r == if dest_is_dir {
            if dest_is_cwd && noop_onto_itself(operation, on_conflict) {
                DestDecision::NoOp
            } else {
                DestDecision::Proceed
            }
        } else if num_entries == 1 {
            if !parent_is_dir {
                DestDecision::NotADirectory(false)
            } else if same_name && parent_is_cwd && noop_onto_itself(operation, on_conflict) {
                DestDecision::NoOp
            } else {
                DestDecision::Proceed
            }
        } else {
            DestDecision::NotADirectory(true)
        },
{
    let noop = operation == DBJobOperation::Mv || on_conflict == OnConflict::Overwrite || on_conflict
        == OnConflict::Skip;
    if dest_is_dir {
        if dest_is_cwd && noop {
            DestDecision::NoOp
        } else {
            DestDecision::Proceed
        }
    } else if num_entries == 1 {
        if !parent_is_dir {
            DestDecision::NotADirectory(false)
        } else if same_name && parent_is_cwd && noop {
            DestDecision::NoOp
        } else {
            DestDecision::Proceed
        }
    } else {
        DestDecision::NotADirectory(true)
    }
}

} // verus!
