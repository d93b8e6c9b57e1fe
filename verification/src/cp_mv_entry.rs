//! The steps of copying or moving one file of a job, as a state machine.
//! The caller performs the file operation that each step names, reports
//! how it went, and records in the job what the step asks to record; the
//! machine decides what comes next: resuming an interrupted copy, dealing
//! with an existing target (same file, overwrite, renaming the existing
//! target or the copy to a free name), asking whether the user wants the
//! file skipped or the job aborted (before the file and between the blocks
//! of a copy), moving by rename, copying by kind, setting owner and
//! metadata, and removing the source of a move.  A second, smaller machine
//! finishes the directories once their contents are done.

use vstd::prelude::*;
use crate::archive_mounter::{
    entries_view, parent_remap, remap, unarchive_parent_map, unarchive_path_map, ArchiveEntry, Mounts,
};
use crate::cp_mv::{
    chown_next, conflict_action, conflict_message, conflict_message_spec, group_only_fails, new_name,
    new_name_spec, save_name, save_name_spec, ChownNext, ConflictAction, DlgCpMvType, IoFailure,
};
use crate::cp_mv_job::CpMvJob;
use crate::database::{DBFileStatus, DBJobStatus, OnConflict};
use crate::dialogs::WorkerEvent;
use crate::paths::{file_name, join, parent, path_file_name, path_join, path_parent};

verus! {

broadcast use vstd::string::group_string_axioms;

/// What stays fixed while a file is handled: the job's mode and conflict
/// rule, the file's type, whether it lies in a directory already moved
/// whole, and whether an earlier run had started it.
#[derive(Debug, Clone, Copy, PartialEq, Eq, Structural)]
pub struct EntryFacts {
    pub mode: DlgCpMvType,
    pub on_conflict: OnConflict,
    pub is_dir: bool,
    pub is_file: bool,
    pub is_symlink: bool,
    pub skip_dir: bool,
    pub in_progress: bool,
    pub uid: u32,
    pub gid: u32,
}

/// Where the handling of a file stands: each phase waits for the outcome of
/// the operation or record named by the last action.
#[derive(Debug, Clone, Copy, PartialEq, Eq, Structural)]
pub enum EntryPhase {
    Begin,
    ResumeCheck,
    Resumed,
    ConflictCheck,
    SameCheck,
    Skipping,
    Overwriting,
    /// Looking for a free `.fcdsave` name; the number to try next.
    SaveSearch(u64),
    SameBeforeRename,
    RenamingExisting,
    /// Looking for a free `.fcdnew` name; the number to try next.
    NewSearch(u64),
    RenamedCopy,
    Noted,
    Starting,
    /// Asking whether the user wants the file skipped or the job aborted,
    /// before the file is moved or copied.
    FilePolling,
    /// Waiting for a suspended job to go on, before the file.
    FileResuming,
    /// Removing the target of a file the user skipped.
    DroppingSkip,
    /// Removing the target of the file at which the user aborted.
    DroppingAbort,
    Moving,
    Moved,
    SpecialFile,
    Linking,
    MakingDirs,
    DirListed,
    /// Opening source and target for a copy.
    CopyOpening,
    /// Asking about the user's wishes between two blocks of the copy.
    CopyPolling,
    /// Waiting for a suspended job to go on, during the copy.
    CopyResuming,
    /// Copying a block.
    CopyingBlock,
    Chowning,
    ChowningGroup,
    Stating,
    RemovingSource,
    Over,
}

/// What the caller reports of the last action.
#[derive(Debug, Clone, Copy, PartialEq, Eq, Structural)]
pub enum EntryEvent {
    /// The operation or record was done.
    Done,
    /// The operation failed.
    Failed,
    /// What `CheckTarget` found at the target.
    Target { exists: bool, is_dir: bool, is_symlink: bool },
    /// Whether `CheckSameFile` found source and target to be one file.
    Same(bool),
    /// Whether `CheckProbe` found something at the probed path.
    Exists(bool),
    /// How `Lchown` went (`None`: it worked).
    Chown(Option<IoFailure>),
    /// What `PollUser` found the user to have asked (`None`: nothing).
    User(Option<WorkerEvent>),
    /// A block was copied by `CopyBlock`; true when the end was reached.
    Copied(bool),
}

/// The operation that failed, for the file's error message.
#[derive(Debug, Clone, Copy, PartialEq, Eq, Structural)]
pub enum FailStep {
    SameFile,
    Rmdir,
    Remove,
    Rename,
    Symlink,
    Makedirs,
    Copy,
    Lchown,
    Copystat,
}

/// What the caller does next.  The paths are the task's fields.
#[derive(Debug, Clone, Copy, PartialEq, Eq, Structural)]
pub enum EntryAction {
    /// Look at `actual_target`: whether it exists, is a directory, is a
    /// symbolic link (answer `Target`).
    CheckTarget,
    /// Whether `actual_file` and `actual_target` are one file (answer `Same`).
    CheckSameFile,
    /// Whether anything exists at `probe` (answer `Exists`).
    CheckProbe,
    /// Remove the directory `actual_target`.
    RemoveTargetDir,
    /// Remove the file `actual_target`.
    RemoveTarget,
    /// Rename `actual_target` to `existing`.
    RenameExisting,
    /// Rename `actual_file` to `actual_target`; a failure means copying.
    TryMove,
    /// Make a link at `actual_target` with the target of the link `actual_file`.
    MakeSymlink,
    /// Make the directory `actual_target` with its parents.
    MakeDirs,
    /// Open `actual_file` and `actual_target` for copying the contents,
    /// resuming an earlier partial copy when true.
    OpenCopy(bool),
    /// Copy the next block (answer `Copied`).
    CopyBlock,
    /// Ask whether the user has asked to suspend, skip or abort (answer
    /// `User`).
    PollUser,
    /// Wait until the suspended job is let go on.
    AwaitResume,
    /// Remove `actual_target`, whatever comes of it.
    DropTarget,
    /// Set owner (when true) and group of `actual_target` (answer `Chown`).
    Lchown(bool),
    /// Copy times and permissions from `actual_file` to `actual_target`.
    CopyStat,
    /// Remove `actual_file`.
    RemoveSource,
    /// Remove the (emptied) directory `actual_file`.
    RemoveSourceDir,
    /// Record `message` as the file's message.
    SetMessage,
    /// Record that the copy is resumed.
    NoteResumed,
    /// Record the file as started, with the target's type and `cur_target`.
    Start,
    /// Record that the directory goes to `cur_target` in place of `existing`.
    PushRenamedDir,
    /// Record that the directory was moved whole.
    PushMovedDir,
    /// Record the directory for its metadata, made here when true.
    PushDir(bool),
    /// The file ends with these statuses.
    Finish(DBFileStatus, DBJobStatus),
    /// The file ends with the failure of this operation.
    Fail(FailStep),
    /// The file is over; nothing is left to do.
    Nothing,
}

/// The state of a file being handled, as values.
pub struct EntryState {
    pub phase: EntryPhase,
    pub target_is_dir: bool,
    pub target_is_symlink: bool,
    pub resume: bool,
    pub copied: bool,
    pub cur_target: Seq<char>,
    pub actual_file: Seq<char>,
    pub actual_target: Seq<char>,
    pub existing: Seq<char>,
    pub name: Seq<char>,
    pub dir: Seq<char>,
    pub probe: Seq<char>,
    pub message: Seq<char>,
}

/// A file being handled.
pub struct EntryTask {
    pub facts: EntryFacts,
    pub phase: EntryPhase,
    pub target_is_dir: bool,
    pub target_is_symlink: bool,
    pub resume: bool,
    pub copied: bool,
    pub cur_target: String,
    pub actual_file: String,
    pub actual_target: String,
    pub existing: String,
    pub name: String,
    pub dir: String,
    pub probe: String,
    pub message: String,
}

impl View for EntryTask {
    type V = EntryState;

    open spec fn view(&self) -> EntryState {
        EntryState {
            phase: self.phase,
            target_is_dir: self.target_is_dir,
            target_is_symlink: self.target_is_symlink,
            resume: self.resume,
            copied: self.copied,
            cur_target: self.cur_target@,
            actual_file: self.actual_file@,
            actual_target: self.actual_target@,
            existing: self.existing@,
            name: self.name@,
            dir: self.dir@,
            probe: self.probe@,
            message: self.message@,
        }
    }
}

pub open spec fn or_empty(o: Option<Seq<char>>) -> Seq<char> {
    match o {
        Some(s) => s,
        None => Seq::empty(),
    }
}

pub open spec fn end_done() -> EntryAction {
    EntryAction::Finish(DBFileStatus::Done, DBJobStatus::InProgress)
}

pub open spec fn with_phase(s: EntryState, p: EntryPhase) -> EntryState {
    EntryState { phase: p, ..s }
}

pub open spec fn fail_at(s: EntryState, step: FailStep) -> (EntryState, EntryAction) {
    (with_phase(s, EntryPhase::Over), EntryAction::Fail(step))
}

/// After the source is moved or copied: a move that had to copy removes the
/// source file.
pub open spec fn finish_spec(f: EntryFacts, s: EntryState) -> (EntryState, EntryAction) {
    if f.mode == DlgCpMvType::Mv && s.copied && !f.is_dir {
        (with_phase(s, EntryPhase::RemovingSource), EntryAction::RemoveSource)
    } else {
        (with_phase(s, EntryPhase::Over), end_done())
    }
}

/// After a copy: a file gets owner, group and metadata.
pub open spec fn after_copy_spec(f: EntryFacts, s: EntryState) -> (EntryState, EntryAction) {
    if !f.is_dir {
        (with_phase(s, EntryPhase::Chowning), EntryAction::Lchown(true))
    } else {
        finish_spec(f, s)
    }
}

/// Copying, by the type of the source.
pub open spec fn copy_start_spec(f: EntryFacts, s0: EntryState) -> (EntryState, EntryAction) {
    let s = EntryState { copied: true, ..s0 };
    if f.is_symlink {
        (with_phase(s, EntryPhase::Linking), EntryAction::MakeSymlink)
    } else if f.is_dir {
        if !s.target_is_dir {
            (with_phase(s, EntryPhase::MakingDirs), EntryAction::MakeDirs)
        } else {
            (with_phase(s, EntryPhase::DirListed), EntryAction::PushDir(false))
        }
    } else if f.is_file {
        (with_phase(s, EntryPhase::CopyOpening), EntryAction::OpenCopy(s.resume))
    } else {
        (EntryState { phase: EntryPhase::SpecialFile, message: "Special file"@, ..s }, EntryAction::SetMessage)
    }
}

/// Once the target is dealt with: nothing to do inside a directory moved
/// whole; a move is tried as a rename unless the target is a directory;
/// otherwise the source is copied.
pub open spec fn after_prepare_spec(f: EntryFacts, s: EntryState) -> (EntryState, EntryAction) {
    if f.skip_dir {
        (with_phase(s, EntryPhase::Over), end_done())
    } else if f.mode == DlgCpMvType::Mv && !s.target_is_dir {
        (with_phase(s, EntryPhase::Moving), EntryAction::TryMove)
    } else {
        copy_start_spec(f, s)
    }
}

/// Once the file is prepared, the user is asked before it is moved or
/// copied.
pub open spec fn poll_file() -> EntryAction {
    EntryAction::PollUser
}

/// What the user asked, before the file: skip it or abort the job (its
/// target is removed first), suspend (wait, then go on), or nothing.
pub open spec fn on_user_spec(f: EntryFacts, s: EntryState, u: Option<WorkerEvent>, resuming: EntryPhase) -> (EntryState, EntryAction) {
    match u {
        Some(WorkerEvent::Skip) => (with_phase(s, EntryPhase::DroppingSkip), EntryAction::DropTarget),
        Some(WorkerEvent::Abort) => (with_phase(s, EntryPhase::DroppingAbort), EntryAction::DropTarget),
        Some(WorkerEvent::Suspend) => (with_phase(s, resuming), EntryAction::AwaitResume),
        None => if resuming == EntryPhase::FileResuming {
            after_prepare_spec(f, s)
        } else {
            (with_phase(s, EntryPhase::CopyingBlock), EntryAction::CopyBlock)
        },
    }
}

/// What is done about an existing target, by the conflict action.
pub open spec fn on_conflict_spec(ad: Mounts, s: EntryState, a: ConflictAction) -> (EntryState, EntryAction) {
    match a {
        ConflictAction::SameFile | ConflictAction::Skip => (
            EntryState { phase: EntryPhase::Skipping, message: conflict_message_spec(a, Seq::empty()), ..s },
            EntryAction::SetMessage,
        ),
        ConflictAction::Overwrite => (
            with_phase(s, EntryPhase::Overwriting),
            if s.target_is_dir && !s.target_is_symlink {
                EntryAction::RemoveTargetDir
            } else {
                EntryAction::RemoveTarget
            },
        ),
        ConflictAction::RenameExisting => (
            EntryState {
                phase: EntryPhase::SaveSearch(0),
                name: or_empty(path_file_name(s.actual_target)),
                dir: or_empty(path_parent(s.actual_target)),
                probe: s.actual_target,
                ..s
            },
            EntryAction::CheckProbe,
        ),
        ConflictAction::RenameCopy => (
            EntryState {
                phase: EntryPhase::NewSearch(0),
                name: or_empty(path_file_name(s.cur_target)),
                dir: or_empty(path_parent(s.cur_target)),
                existing: s.cur_target,
                probe: remap(s.cur_target, ad, false),
                ..s
            },
            EntryAction::CheckProbe,
        ),
    }
}

pub open spec fn conflict_action_spec(mode: DlgCpMvType, on_conflict: OnConflict, same_file: bool) -> ConflictAction {
    if same_file && (mode == DlgCpMvType::Mv || !(on_conflict == OnConflict::RenameExisting || on_conflict
        == OnConflict::RenameCopy)) {
        ConflictAction::SameFile
    } else {
        match on_conflict {
            OnConflict::Overwrite => ConflictAction::Overwrite,
            OnConflict::RenameExisting => ConflictAction::RenameExisting,
            OnConflict::RenameCopy => ConflictAction::RenameCopy,
            OnConflict::Skip => ConflictAction::Skip,
        }
    }
}

/// The next state and action, from the state and what the caller reports
/// of the last action (`ad`: the archives mounted).
pub open spec fn entry_next(f: EntryFacts, ad: Mounts, s: EntryState, ev: EntryEvent) -> (EntryState, EntryAction) {
    match s.phase {
        EntryPhase::Begin => if f.in_progress {
            (with_phase(s, EntryPhase::ResumeCheck), EntryAction::CheckTarget)
        } else {
            (with_phase(s, EntryPhase::ConflictCheck), EntryAction::CheckTarget)
        },
        EntryPhase::ResumeCheck => match ev {
            EntryEvent::Target { exists, .. } if exists => (
                EntryState { phase: EntryPhase::Resumed, resume: true, ..s },
                EntryAction::NoteResumed,
            ),
            _ => (with_phase(s, EntryPhase::FilePolling), poll_file()),
        },
        EntryPhase::Resumed => (with_phase(s, EntryPhase::FilePolling), poll_file()),
        EntryPhase::ConflictCheck => match ev {
            EntryEvent::Target { exists, is_dir, is_symlink } => {
                let s1 = if exists && !f.skip_dir {
                    EntryState { target_is_dir: is_dir, target_is_symlink: is_symlink, ..s }
                } else {
                    s
                };
                if exists && !f.skip_dir && !(f.is_dir && s1.target_is_dir) {
                    (with_phase(s1, EntryPhase::SameCheck), EntryAction::CheckSameFile)
                } else {
                    (with_phase(s1, EntryPhase::Starting), EntryAction::Start)
                }
            },
            _ => (with_phase(s, EntryPhase::Starting), EntryAction::Start),
        },
        EntryPhase::SameCheck => match ev {
            EntryEvent::Same(b) => on_conflict_spec(ad, s, conflict_action_spec(f.mode, f.on_conflict, b)),
            _ => fail_at(s, FailStep::SameFile),
        },
        EntryPhase::Skipping => (
            with_phase(s, EntryPhase::Over),
            EntryAction::Finish(DBFileStatus::Skipped, DBJobStatus::InProgress),
        ),
        EntryPhase::Overwriting => match ev {
            EntryEvent::Done => (
                EntryState {
                    phase: EntryPhase::Noted,
                    message: conflict_message_spec(ConflictAction::Overwrite, Seq::empty()),
                    ..s
                },
                EntryAction::SetMessage,
            ),
            _ => fail_at(
                s,
                if s.target_is_dir && !s.target_is_symlink {
                    FailStep::Rmdir
                } else {
                    FailStep::Remove
                },
            ),
        },
        EntryPhase::SaveSearch(i) => match ev {
            EntryEvent::Exists(taken) => if !taken {
                (EntryState { phase: EntryPhase::SameBeforeRename, existing: s.probe, ..s }, EntryAction::CheckSameFile)
            } else if i < u64::MAX {
                (
                    EntryState {
                        phase: EntryPhase::SaveSearch((i + 1) as u64),
                        probe: path_join(s.dir, save_name_spec(s.name, i as nat)),
                        ..s
                    },
                    EntryAction::CheckProbe,
                )
            } else {
                fail_at(s, FailStep::Rename)
            },
            _ => fail_at(s, FailStep::Rename),
        },
        EntryPhase::SameBeforeRename => match ev {
            EntryEvent::Same(b) => (
                EntryState {
                    phase: EntryPhase::RenamingExisting,
                    actual_file: if b {
                        s.existing
                    } else {
                        s.actual_file
                    },
                    ..s
                },
                EntryAction::RenameExisting,
            ),
            _ => fail_at(s, FailStep::SameFile),
        },
        EntryPhase::RenamingExisting => match ev {
            EntryEvent::Done => (
                EntryState {
                    phase: EntryPhase::Noted,
                    message: conflict_message_spec(ConflictAction::RenameExisting, or_empty(path_file_name(s.existing))),
                    ..s
                },
                EntryAction::SetMessage,
            ),
            _ => fail_at(s, FailStep::Rename),
        },
        EntryPhase::NewSearch(i) => match ev {
            EntryEvent::Exists(taken) => if !taken {
                (
                    EntryState {
                        phase: EntryPhase::RenamedCopy,
                        actual_target: s.probe,
                        message: conflict_message_spec(ConflictAction::RenameCopy, or_empty(path_file_name(s.cur_target))),
                        ..s
                    },
                    EntryAction::SetMessage,
                )
            } else if i < u64::MAX {
                let t = path_join(s.dir, new_name_spec(s.name, i as nat));
                (
                    EntryState {
                        phase: EntryPhase::NewSearch((i + 1) as u64),
                        cur_target: t,
                        probe: remap(t, ad, false),
                        ..s
                    },
                    EntryAction::CheckProbe,
                )
            } else {
                fail_at(s, FailStep::Rename)
            },
            _ => fail_at(s, FailStep::Rename),
        },
        EntryPhase::RenamedCopy => (with_phase(s, EntryPhase::Noted), EntryAction::PushRenamedDir),
        EntryPhase::Noted => (with_phase(s, EntryPhase::Starting), EntryAction::Start),
        EntryPhase::Starting => (with_phase(s, EntryPhase::FilePolling), poll_file()),
        EntryPhase::FilePolling => match ev {
            EntryEvent::User(u) => on_user_spec(f, s, u, EntryPhase::FileResuming),
            _ => after_prepare_spec(f, s),
        },
        EntryPhase::FileResuming => after_prepare_spec(f, s),
        EntryPhase::DroppingSkip => (
            with_phase(s, EntryPhase::Over),
            EntryAction::Finish(DBFileStatus::Skipped, DBJobStatus::InProgress),
        ),
        EntryPhase::DroppingAbort => (
            with_phase(s, EntryPhase::Over),
            EntryAction::Finish(DBFileStatus::InProgress, DBJobStatus::Aborted),
        ),
        EntryPhase::Moving => match ev {
            EntryEvent::Done => (EntryState { phase: EntryPhase::Moved, copied: false, ..s }, EntryAction::PushMovedDir),
            _ => copy_start_spec(f, s),
        },
        EntryPhase::Moved => finish_spec(f, s),
        EntryPhase::SpecialFile => (
            with_phase(s, EntryPhase::Over),
            EntryAction::Finish(DBFileStatus::Error, DBJobStatus::InProgress),
        ),
        EntryPhase::Linking => match ev {
            EntryEvent::Done => after_copy_spec(f, s),
            _ => fail_at(s, FailStep::Symlink),
        },
        EntryPhase::MakingDirs => match ev {
            EntryEvent::Done => (with_phase(s, EntryPhase::DirListed), EntryAction::PushDir(true)),
            _ => fail_at(s, FailStep::Makedirs),
        },
        EntryPhase::DirListed => after_copy_spec(f, s),
        EntryPhase::CopyOpening => match ev {
            EntryEvent::Done => (with_phase(s, EntryPhase::CopyPolling), EntryAction::PollUser),
            _ => fail_at(s, FailStep::Copy),
        },
        EntryPhase::CopyPolling => match ev {
            EntryEvent::User(u) => on_user_spec(f, s, u, EntryPhase::CopyResuming),
            _ => (with_phase(s, EntryPhase::CopyingBlock), EntryAction::CopyBlock),
        },
        EntryPhase::CopyResuming => (with_phase(s, EntryPhase::CopyingBlock), EntryAction::CopyBlock),
        EntryPhase::CopyingBlock => match ev {
            EntryEvent::Copied(end) => if end {
                after_copy_spec(f, s)
            } else {
                (with_phase(s, EntryPhase::CopyPolling), EntryAction::PollUser)
            },
            _ => fail_at(s, FailStep::Copy),
        },
        EntryPhase::Chowning => match ev {
            EntryEvent::Chown(x) => match x {
                None | Some(IoFailure::Unsupported) => (with_phase(s, EntryPhase::Stating), EntryAction::CopyStat),
                Some(IoFailure::PermissionDenied) => (
                    with_phase(s, EntryPhase::ChowningGroup),
                    EntryAction::Lchown(false),
                ),
                Some(IoFailure::Other) => fail_at(s, FailStep::Lchown),
            },
            _ => fail_at(s, FailStep::Lchown),
        },
        EntryPhase::ChowningGroup => match ev {
            EntryEvent::Chown(x) => if x == Some(IoFailure::Other) {
                fail_at(s, FailStep::Lchown)
            } else {
                (with_phase(s, EntryPhase::Stating), EntryAction::CopyStat)
            },
            _ => fail_at(s, FailStep::Lchown),
        },
        EntryPhase::Stating => match ev {
            EntryEvent::Done => finish_spec(f, s),
            _ => fail_at(s, FailStep::Copystat),
        },
        EntryPhase::RemovingSource => match ev {
            EntryEvent::Done => (with_phase(s, EntryPhase::Over), end_done()),
            _ => fail_at(s, FailStep::Remove),
        },
        EntryPhase::Over => (s, EntryAction::Nothing),
    }
}

/// The name of a failed operation, as the file's error message gives it.
pub open spec fn fail_label_spec(step: FailStep) -> Seq<char> {
    match step {
        FailStep::SameFile => "samefile"@,
        FailStep::Rmdir => "rmdir"@,
        FailStep::Remove => "remove"@,
        FailStep::Rename => "rename"@,
        FailStep::Symlink => "symlink"@,
        FailStep::Makedirs => "makedirs"@,
        FailStep::Copy => "copy"@,
        FailStep::Lchown => "lchown"@,
        FailStep::Copystat => "copystat"@,
    }
}

pub fn fail_label(step: FailStep) -> (r: String)
    ensures
        r@ == fail_label_spec(step),
{
    match step {
        FailStep::SameFile => "samefile".to_string(),
        FailStep::Rmdir => "rmdir".to_string(),
        FailStep::Remove => "remove".to_string(),
        FailStep::Rename => "rename".to_string(),
        FailStep::Symlink => "symlink".to_string(),
        FailStep::Makedirs => "makedirs".to_string(),
        FailStep::Copy => "copy".to_string(),
        FailStep::Lchown => "lchown".to_string(),
        FailStep::Copystat => "copystat".to_string(),
    }
}

/// A value `Some(s)` as a string, or the empty string.
fn string_or_empty(o: Option<String>) -> (r: String)
    ensures
        r@ == match o {
            Some(s) => s@,
            None => Seq::empty(),
        },
{
    match o {
        Some(s) => s,
        None => String::new(),
    }
}

impl EntryTask {
    /// The task for the job's current file, from where `plan_current` put
    /// it: the facts come from the file and the job.
    pub fn new(
        job: &CpMvJob,
        on_conflict: OnConflict,
        skip_dir: bool,
        cur_target: String,
        actual_file: String,
        actual_target: String,
    ) -> (r: EntryTask)
        requires
            job.in_file(),
        ensures
            ({
                let e = job.files@[job.next_file as int];
                &&& r.facts == (EntryFacts {
                    mode: job.mode,
                    on_conflict,
                    is_dir: e.is_dir,
                    is_file: e.is_file,
                    is_symlink: e.is_symlink,
                    skip_dir,
                    in_progress: e.status == DBFileStatus::InProgress,
                    uid: e.uid,
                    gid: e.gid,
                })
                &&& r@ == (EntryState {
                    phase: EntryPhase::Begin,
                    target_is_dir: e.target_is_dir,
                    target_is_symlink: e.target_is_symlink,
                    resume: false,
                    copied: true,
                    cur_target: cur_target@,
                    actual_file: actual_file@,
                    actual_target: actual_target@,
                    existing: Seq::empty(),
                    name: Seq::empty(),
                    dir: Seq::empty(),
                    probe: Seq::empty(),
                    message: Seq::empty(),
                })
            }),
    {
        let e = &job.files[job.next_file];
        EntryTask {
            facts: EntryFacts {
                mode: job.mode,
                on_conflict,
                is_dir: e.is_dir,
                is_file: e.is_file,
                is_symlink: e.is_symlink,
                skip_dir,
                in_progress: e.status == DBFileStatus::InProgress,
                uid: e.uid,
                gid: e.gid,
            },
            phase: EntryPhase::Begin,
            target_is_dir: e.target_is_dir,
            target_is_symlink: e.target_is_symlink,
            resume: false,
            copied: true,
            cur_target,
            actual_file,
            actual_target,
            existing: String::new(),
            name: String::new(),
            dir: String::new(),
            probe: String::new(),
            message: String::new(),
        }
    }

    fn finish_step(&mut self) -> (r: EntryAction)
        ensures
            (final(self)@, r) == finish_spec(old(self).facts, old(self)@),
            final(self).facts == old(self).facts,
    {
        if self.facts.mode == DlgCpMvType::Mv && self.copied && !self.facts.is_dir {
            self.phase = EntryPhase::RemovingSource;
            EntryAction::RemoveSource
        } else {
            self.phase = EntryPhase::Over;
            EntryAction::Finish(DBFileStatus::Done, DBJobStatus::InProgress)
        }
    }

    fn after_copy(&mut self) -> (r: EntryAction)
        ensures
            (final(self)@, r) == after_copy_spec(old(self).facts, old(self)@),
            final(self).facts == old(self).facts,
    {
        if !self.facts.is_dir {
            self.phase = EntryPhase::Chowning;
            EntryAction::Lchown(true)
        } else {
            self.finish_step()
        }
    }

    fn copy_start(&mut self) -> (r: EntryAction)
        ensures
            (final(self)@, r) == copy_start_spec(old(self).facts, old(self)@),
            final(self).facts == old(self).facts,
    {
        self.copied = true;
        if self.facts.is_symlink {
            self.phase = EntryPhase::Linking;
            EntryAction::MakeSymlink
        } else if self.facts.is_dir {
            if !self.target_is_dir {
                self.phase = EntryPhase::MakingDirs;
                EntryAction::MakeDirs
            } else {
                self.phase = EntryPhase::DirListed;
                EntryAction::PushDir(false)
            }
        } else if self.facts.is_file {
            self.phase = EntryPhase::CopyOpening;
            EntryAction::OpenCopy(self.resume)
        } else {
            self.phase = EntryPhase::SpecialFile;
            self.message = "Special file".to_string();
            EntryAction::SetMessage
        }
    }

    fn after_prepare(&mut self) -> (r: EntryAction)
        ensures
            (final(self)@, r) == after_prepare_spec(old(self).facts, old(self)@),
            final(self).facts == old(self).facts,
    {
        if self.facts.skip_dir {
            self.phase = EntryPhase::Over;
            EntryAction::Finish(DBFileStatus::Done, DBJobStatus::InProgress)
        } else if self.facts.mode == DlgCpMvType::Mv && !self.target_is_dir {
            self.phase = EntryPhase::Moving;
            EntryAction::TryMove
        } else {
            self.copy_start()
        }
    }

    fn on_conflict(&mut self, a: ConflictAction, archive_dirs: &[ArchiveEntry]) -> (r: EntryAction)
        ensures
            (final(self)@, r) == on_conflict_spec(entries_view(archive_dirs@), old(self)@, a),
            final(self).facts == old(self).facts,
    {
        match a {
            ConflictAction::SameFile | ConflictAction::Skip => {
                self.phase = EntryPhase::Skipping;
                self.message = conflict_message(a, "");
                proof {
                    reveal_strlit("");
                }
                EntryAction::SetMessage
            },
            ConflictAction::Overwrite => {
                self.phase = EntryPhase::Overwriting;
                if self.target_is_dir && !self.target_is_symlink {
                    EntryAction::RemoveTargetDir
                } else {
                    EntryAction::RemoveTarget
                }
            },
            ConflictAction::RenameExisting => {
                self.phase = EntryPhase::SaveSearch(0);
                self.name = string_or_empty(file_name(self.actual_target.as_str()));
                self.dir = string_or_empty(parent(self.actual_target.as_str()));
                self.probe = self.actual_target.clone();
                EntryAction::CheckProbe
            },
            ConflictAction::RenameCopy => {
                self.phase = EntryPhase::NewSearch(0);
                self.name = string_or_empty(file_name(self.cur_target.as_str()));
                self.dir = string_or_empty(parent(self.cur_target.as_str()));
                self.existing = self.cur_target.clone();
                self.probe = unarchive_path_map(self.cur_target.as_str(), archive_dirs);
                EntryAction::CheckProbe
            },
        }
    }

    fn on_user(&mut self, u: Option<WorkerEvent>, resuming: EntryPhase) -> (r: EntryAction)
        ensures
            (final(self)@, r) == on_user_spec(old(self).facts, old(self)@, u, resuming),
            final(self).facts == old(self).facts,
    {
        match u {
            Some(WorkerEvent::Skip) => {
                self.phase = EntryPhase::DroppingSkip;
                EntryAction::DropTarget
            },
            Some(WorkerEvent::Abort) => {
                self.phase = EntryPhase::DroppingAbort;
                EntryAction::DropTarget
            },
            Some(WorkerEvent::Suspend) => {
                self.phase = resuming;
                EntryAction::AwaitResume
            },
            None => if resuming == EntryPhase::FileResuming {
                self.after_prepare()
            } else {
                self.phase = EntryPhase::CopyingBlock;
                EntryAction::CopyBlock
            },
        }
    }

    /// The next action, from what the caller reports of the last one
    /// (`Done` for the first call); `archive_dirs` are the archives mounted.
    #[verifier::rlimit(60)]
    #[verifier::spinoff_prover]
    pub fn step(&mut self, ev: EntryEvent, archive_dirs: &[ArchiveEntry]) -> (r: EntryAction)
        ensures
            (final(self)@, r) == entry_next(old(self).facts, entries_view(archive_dirs@), old(self)@, ev),
            final(self).facts == old(self).facts,
    {
        match self.phase {
            EntryPhase::Begin => {
                if self.facts.in_progress {
                    self.phase = EntryPhase::ResumeCheck;
                } else {
                    self.phase = EntryPhase::ConflictCheck;
                }
                EntryAction::CheckTarget
            },
            EntryPhase::ResumeCheck => match ev {
                EntryEvent::Target { exists, .. } if exists => {
                    self.phase = EntryPhase::Resumed;
                    self.resume = true;
                    EntryAction::NoteResumed
                },
                _ => {
                    self.phase = EntryPhase::FilePolling;
                    EntryAction::PollUser
                },
            },
            EntryPhase::Resumed => {
                self.phase = EntryPhase::FilePolling;
                EntryAction::PollUser
            },
            EntryPhase::ConflictCheck => match ev {
                EntryEvent::Target { exists, is_dir, is_symlink } => {
                    if exists && !self.facts.skip_dir {
                        self.target_is_dir = is_dir;
                        self.target_is_symlink = is_symlink;
                    }
                    if exists && !self.facts.skip_dir && !(self.facts.is_dir && self.target_is_dir) {
                        self.phase = EntryPhase::SameCheck;
                        EntryAction::CheckSameFile
                    } else {
                        self.phase = EntryPhase::Starting;
                        EntryAction::Start
                    }
                },
                _ => {
                    self.phase = EntryPhase::Starting;
                    EntryAction::Start
                },
            },
            EntryPhase::SameCheck => match ev {
                EntryEvent::Same(b) => {
                    let a = conflict_action(self.facts.mode, self.facts.on_conflict, b);
                    self.on_conflict(a, archive_dirs)
                },
                _ => {
                    self.phase = EntryPhase::Over;
                    EntryAction::Fail(FailStep::SameFile)
                },
            },
            EntryPhase::Skipping => {
                self.phase = EntryPhase::Over;
                EntryAction::Finish(DBFileStatus::Skipped, DBJobStatus::InProgress)
            },
            EntryPhase::Overwriting => match ev {
                EntryEvent::Done => {
                    self.phase = EntryPhase::Noted;
                    self.message = conflict_message(ConflictAction::Overwrite, "");
                    proof {
                        reveal_strlit("");
                    }
                    EntryAction::SetMessage
                },
                _ => {
                    self.phase = EntryPhase::Over;
                    if self.target_is_dir && !self.target_is_symlink {
                        EntryAction::Fail(FailStep::Rmdir)
                    } else {
                        EntryAction::Fail(FailStep::Remove)
                    }
                },
            },
            EntryPhase::SaveSearch(i) => match ev {
                EntryEvent::Exists(taken) => {
                    if !taken {
                        self.phase = EntryPhase::SameBeforeRename;
                        self.existing = self.probe.clone();
                        EntryAction::CheckSameFile
                    } else if i < u64::MAX {
                        self.phase = EntryPhase::SaveSearch(i + 1);
                        let n = save_name(self.name.as_str(), i);
                        self.probe = join(self.dir.as_str(), n.as_str());
                        EntryAction::CheckProbe
                    } else {
                        self.phase = EntryPhase::Over;
                        EntryAction::Fail(FailStep::Rename)
                    }
                },
                _ => {
                    self.phase = EntryPhase::Over;
                    EntryAction::Fail(FailStep::Rename)
                },
            },
            EntryPhase::SameBeforeRename => match ev {
                EntryEvent::Same(b) => {
                    self.phase = EntryPhase::RenamingExisting;
                    if b {
                        self.actual_file = self.existing.clone();
                    }
                    EntryAction::RenameExisting
                },
                _ => {
                    self.phase = EntryPhase::Over;
                    EntryAction::Fail(FailStep::SameFile)
                },
            },
            EntryPhase::RenamingExisting => match ev {
                EntryEvent::Done => {
                    self.phase = EntryPhase::Noted;
                    let n = string_or_empty(file_name(self.existing.as_str()));
                    self.message = conflict_message(ConflictAction::RenameExisting, n.as_str());
                    EntryAction::SetMessage
                },
                _ => {
                    self.phase = EntryPhase::Over;
                    EntryAction::Fail(FailStep::Rename)
                },
            },
            EntryPhase::NewSearch(i) => match ev {
                EntryEvent::Exists(taken) => {
                    if !taken {
                        self.phase = EntryPhase::RenamedCopy;
                        self.actual_target = self.probe.clone();
                        let n = string_or_empty(file_name(self.cur_target.as_str()));
                        self.message = conflict_message(ConflictAction::RenameCopy, n.as_str());
                        EntryAction::SetMessage
                    } else if i < u64::MAX {
                        self.phase = EntryPhase::NewSearch(i + 1);
                        let n = new_name(self.name.as_str(), i);
                        self.cur_target = join(self.dir.as_str(), n.as_str());
                        self.probe = unarchive_path_map(self.cur_target.as_str(), archive_dirs);
                        EntryAction::CheckProbe
                    } else {
                        self.phase = EntryPhase::Over;
                        EntryAction::Fail(FailStep::Rename)
                    }
                },
                _ => {
                    self.phase = EntryPhase::Over;
                    EntryAction::Fail(FailStep::Rename)
                },
            },
            EntryPhase::RenamedCopy => {
                self.phase = EntryPhase::Noted;
                EntryAction::PushRenamedDir
            },
            EntryPhase::Noted => {
                self.phase = EntryPhase::Starting;
                EntryAction::Start
            },
            EntryPhase::Starting => {
                self.phase = EntryPhase::FilePolling;
                EntryAction::PollUser
            },
            EntryPhase::FilePolling => match ev {
                EntryEvent::User(u) => self.on_user(u, EntryPhase::FileResuming),
                _ => self.after_prepare(),
            },
            EntryPhase::FileResuming => self.after_prepare(),
            EntryPhase::DroppingSkip => {
                self.phase = EntryPhase::Over;
                EntryAction::Finish(DBFileStatus::Skipped, DBJobStatus::InProgress)
            },
            EntryPhase::DroppingAbort => {
                self.phase = EntryPhase::Over;
                EntryAction::Finish(DBFileStatus::InProgress, DBJobStatus::Aborted)
            },
            EntryPhase::Moving => match ev {
                EntryEvent::Done => {
                    self.phase = EntryPhase::Moved;
                    self.copied = false;
                    EntryAction::PushMovedDir
                },
                _ => self.copy_start(),
            },
            EntryPhase::Moved => self.finish_step(),
            EntryPhase::SpecialFile => {
                self.phase = EntryPhase::Over;
                EntryAction::Finish(DBFileStatus::Error, DBJobStatus::InProgress)
            },
            EntryPhase::Linking => match ev {
                EntryEvent::Done => self.after_copy(),
                _ => {
                    self.phase = EntryPhase::Over;
                    EntryAction::Fail(FailStep::Symlink)
                },
            },
            EntryPhase::MakingDirs => match ev {
                EntryEvent::Done => {
                    self.phase = EntryPhase::DirListed;
                    EntryAction::PushDir(true)
                },
                _ => {
                    self.phase = EntryPhase::Over;
                    EntryAction::Fail(FailStep::Makedirs)
                },
            },
            EntryPhase::DirListed => self.after_copy(),
            EntryPhase::CopyOpening => match ev {
                EntryEvent::Done => {
                    self.phase = EntryPhase::CopyPolling;
                    EntryAction::PollUser
                },
                _ => {
                    self.phase = EntryPhase::Over;
                    EntryAction::Fail(FailStep::Copy)
                },
            },
            EntryPhase::CopyPolling => match ev {
                EntryEvent::User(u) => self.on_user(u, EntryPhase::CopyResuming),
                _ => {
                    self.phase = EntryPhase::CopyingBlock;
                    EntryAction::CopyBlock
                },
            },
            EntryPhase::CopyResuming => {
                self.phase = EntryPhase::CopyingBlock;
                EntryAction::CopyBlock
            },
            EntryPhase::CopyingBlock => match ev {
                EntryEvent::Copied(end) => {
                    if end {
                        self.after_copy()
                    } else {
                        self.phase = EntryPhase::CopyPolling;
                        EntryAction::PollUser
                    }
                },
                _ => {
                    self.phase = EntryPhase::Over;
                    EntryAction::Fail(FailStep::Copy)
                },
            },
            EntryPhase::Chowning => match ev {
                EntryEvent::Chown(x) => match chown_next(x) {
                    ChownNext::Done => {
                        self.phase = EntryPhase::Stating;
                        EntryAction::CopyStat
                    },
                    ChownNext::GroupOnly => {
                        self.phase = EntryPhase::ChowningGroup;
                        EntryAction::Lchown(false)
                    },
                    ChownNext::Fail => {
                        self.phase = EntryPhase::Over;
                        EntryAction::Fail(FailStep::Lchown)
                    },
                },
                _ => {
                    self.phase = EntryPhase::Over;
                    EntryAction::Fail(FailStep::Lchown)
                },
            },
            EntryPhase::ChowningGroup => match ev {
                EntryEvent::Chown(x) => {
                    if group_only_fails(x) {
                        self.phase = EntryPhase::Over;
                        EntryAction::Fail(FailStep::Lchown)
                    } else {
                        self.phase = EntryPhase::Stating;
                        EntryAction::CopyStat
                    }
                },
                _ => {
                    self.phase = EntryPhase::Over;
                    EntryAction::Fail(FailStep::Lchown)
                },
            },
            EntryPhase::Stating => match ev {
                EntryEvent::Done => self.finish_step(),
                _ => {
                    self.phase = EntryPhase::Over;
                    EntryAction::Fail(FailStep::Copystat)
                },
            },
            EntryPhase::RemovingSource => match ev {
                EntryEvent::Done => {
                    self.phase = EntryPhase::Over;
                    EntryAction::Finish(DBFileStatus::Done, DBJobStatus::InProgress)
                },
                _ => {
                    self.phase = EntryPhase::Over;
                    EntryAction::Fail(FailStep::Remove)
                },
            },
            EntryPhase::Over => EntryAction::Nothing,
        }
    }
}

// ---------------------------------------------------------------------------
// Directories, once their contents are done

/// What stays fixed while a directory is finished.
#[derive(Debug, Clone, Copy, PartialEq, Eq, Structural)]
pub struct DirFacts {
    pub mode: DlgCpMvType,
    /// The directory was made by the job (rather than merged into).
    pub new_dir: bool,
    pub uid: u32,
    pub gid: u32,
}

/// Where the finishing of a directory stands.
#[derive(Debug, Clone, Copy, PartialEq, Eq, Structural)]
pub enum DirPhase {
    Begin,
    Polling,
    Resuming,
    Chowning,
    ChowningGroup,
    Stating,
    RemovingSource,
    Over,
}

/// After the user was asked: a directory made by the job gets owner, group
/// and metadata; otherwise it is finished.
pub open spec fn dir_after_poll(f: DirFacts) -> (DirPhase, EntryAction) {
    if f.new_dir {
        (DirPhase::Chowning, EntryAction::Lchown(true))
    } else {
        dir_finish(f)
    }
}

/// A move removes the source directory, now empty.
pub open spec fn dir_finish(f: DirFacts) -> (DirPhase, EntryAction) {
    if f.mode == DlgCpMvType::Mv {
        (DirPhase::RemovingSource, EntryAction::RemoveSourceDir)
    } else {
        (DirPhase::Over, end_done())
    }
}

/// The next phase and action in finishing a directory, from what the
/// caller reports of the last action.  The user's skip ends the directory
/// Skipped, an abort ends the job Aborted.
pub open spec fn dir_next(f: DirFacts, p: DirPhase, ev: EntryEvent) -> (DirPhase, EntryAction) {
    match p {
        DirPhase::Begin => (DirPhase::Polling, EntryAction::PollUser),
        DirPhase::Polling => match ev {
            EntryEvent::User(Some(WorkerEvent::Skip)) => (
                DirPhase::Over,
                EntryAction::Finish(DBFileStatus::Skipped, DBJobStatus::InProgress),
            ),
            EntryEvent::User(Some(WorkerEvent::Abort)) => (
                DirPhase::Over,
                EntryAction::Finish(DBFileStatus::InProgress, DBJobStatus::Aborted),
            ),
            EntryEvent::User(Some(WorkerEvent::Suspend)) => (DirPhase::Resuming, EntryAction::AwaitResume),
            _ => dir_after_poll(f),
        },
        DirPhase::Resuming => dir_after_poll(f),
        DirPhase::Chowning => match ev {
            EntryEvent::Chown(x) => match x {
                None | Some(IoFailure::Unsupported) => (DirPhase::Stating, EntryAction::CopyStat),
                Some(IoFailure::PermissionDenied) => (DirPhase::ChowningGroup, EntryAction::Lchown(false)),
                Some(IoFailure::Other) => (DirPhase::Over, EntryAction::Fail(FailStep::Lchown)),
            },
            _ => (DirPhase::Over, EntryAction::Fail(FailStep::Lchown)),
        },
        DirPhase::ChowningGroup => match ev {
            EntryEvent::Chown(x) => if x == Some(IoFailure::Other) {
                (DirPhase::Over, EntryAction::Fail(FailStep::Lchown))
            } else {
                (DirPhase::Stating, EntryAction::CopyStat)
            },
            _ => (DirPhase::Over, EntryAction::Fail(FailStep::Lchown)),
        },
        DirPhase::Stating => match ev {
            EntryEvent::Done => dir_finish(f),
            _ => (DirPhase::Over, EntryAction::Fail(FailStep::Copystat)),
        },
        DirPhase::RemovingSource => match ev {
            EntryEvent::Done => (DirPhase::Over, end_done()),
            _ => (DirPhase::Over, EntryAction::Fail(FailStep::Rmdir)),
        },
        DirPhase::Over => (DirPhase::Over, EntryAction::Nothing),
    }
}

/// A directory of a job being finished: its metadata set, and removed for a
/// move.
pub struct DirTask {
    pub facts: DirFacts,
    pub phase: DirPhase,
    pub actual_file: String,
    pub actual_target: String,
}

impl DirTask {
    /// The task for the job's directory at `index`, with its source and
    /// target where the archives are mounted.
    pub fn new(job: &CpMvJob, index: usize, archive_dirs: &[ArchiveEntry]) -> (r: DirTask)
        requires
            index < job.dirs@.len(),
        ensures
            ({
                let d = job.dirs@[index as int];
                &&& r.facts == (DirFacts { mode: job.mode, new_dir: d.new_dir, uid: d.file.uid, gid: d.file.gid })
                &&& r.phase == DirPhase::Begin
                &&& r.actual_file@ == parent_remap(d.cur_file@, entries_view(archive_dirs@), false)
                &&& r.actual_target@ == parent_remap(d.cur_target@, entries_view(archive_dirs@), false)
            }),
    {
        let d = &job.dirs[index];
        DirTask {
            facts: DirFacts { mode: job.mode, new_dir: d.new_dir, uid: d.file.uid, gid: d.file.gid },
            phase: DirPhase::Begin,
            actual_file: unarchive_parent_map(d.cur_file.as_str(), archive_dirs),
            actual_target: unarchive_parent_map(d.cur_target.as_str(), archive_dirs),
        }
    }

    fn finish_step(&mut self) -> (r: EntryAction)
        ensures
            (final(self).phase, r) == dir_finish(old(self).facts),
            final(self).facts == old(self).facts,
            final(self).actual_file == old(self).actual_file,
            final(self).actual_target == old(self).actual_target,
    {
        if self.facts.mode == DlgCpMvType::Mv {
            self.phase = DirPhase::RemovingSource;
            EntryAction::RemoveSourceDir
        } else {
            self.phase = DirPhase::Over;
            EntryAction::Finish(DBFileStatus::Done, DBJobStatus::InProgress)
        }
    }

    fn after_poll(&mut self) -> (r: EntryAction)
        ensures
            (final(self).phase, r) == dir_after_poll(old(self).facts),
            final(self).facts == old(self).facts,
            final(self).actual_file == old(self).actual_file,
            final(self).actual_target == old(self).actual_target,
    {
        if self.facts.new_dir {
            self.phase = DirPhase::Chowning;
            EntryAction::Lchown(true)
        } else {
            self.finish_step()
        }
    }

    /// The next action, from what the caller reports of the last one
    /// (`Done` for the first call).
    pub fn step(&mut self, ev: EntryEvent) -> (r: EntryAction)
        ensures
            (final(self).phase, r) == dir_next(old(self).facts, old(self).phase, ev),
            final(self).facts == old(self).facts,
            final(self).actual_file == old(self).actual_file,
            final(self).actual_target == old(self).actual_target,
    {
        match self.phase {
            DirPhase::Begin => {
                self.phase = DirPhase::Polling;
                EntryAction::PollUser
            },
            DirPhase::Polling => match ev {
                EntryEvent::User(Some(WorkerEvent::Skip)) => {
                    self.phase = DirPhase::Over;
                    EntryAction::Finish(DBFileStatus::Skipped, DBJobStatus::InProgress)
                },
                EntryEvent::User(Some(WorkerEvent::Abort)) => {
                    self.phase = DirPhase::Over;
                    EntryAction::Finish(DBFileStatus::InProgress, DBJobStatus::Aborted)
                },
                EntryEvent::User(Some(WorkerEvent::Suspend)) => {
                    self.phase = DirPhase::Resuming;
                    EntryAction::AwaitResume
                },
                _ => self.after_poll(),
            },
            DirPhase::Resuming => self.after_poll(),
            DirPhase::Chowning => match ev {
                EntryEvent::Chown(x) => match chown_next(x) {
                    ChownNext::Done => {
                        self.phase = DirPhase::Stating;
                        EntryAction::CopyStat
                    },
                    ChownNext::GroupOnly => {
                        self.phase = DirPhase::ChowningGroup;
                        EntryAction::Lchown(false)
                    },
                    ChownNext::Fail => {
                        self.phase = DirPhase::Over;
                        EntryAction::Fail(FailStep::Lchown)
                    },
                },
                _ => {
                    self.phase = DirPhase::Over;
                    EntryAction::Fail(FailStep::Lchown)
                },
            },
            DirPhase::ChowningGroup => match ev {
                EntryEvent::Chown(x) => {
                    if group_only_fails(x) {
                        self.phase = DirPhase::Over;
                        EntryAction::Fail(FailStep::Lchown)
                    } else {
                        self.phase = DirPhase::Stating;
                        EntryAction::CopyStat
                    }
                },
                _ => {
                    self.phase = DirPhase::Over;
                    EntryAction::Fail(FailStep::Lchown)
                },
            },
            DirPhase::Stating => match ev {
                EntryEvent::Done => self.finish_step(),
                _ => {
                    self.phase = DirPhase::Over;
                    EntryAction::Fail(FailStep::Copystat)
                },
            },
            DirPhase::RemovingSource => match ev {
                EntryEvent::Done => {
                    self.phase = DirPhase::Over;
                    EntryAction::Finish(DBFileStatus::Done, DBJobStatus::InProgress)
                },
                _ => {
                    self.phase = DirPhase::Over;
                    EntryAction::Fail(FailStep::Rmdir)
                },
            },
            DirPhase::Over => EntryAction::Nothing,
        }
    }
}

} // verus!
