//! The records of copy, move and delete jobs that are kept in the job
//! database so that an interrupted job can be resumed, and the text each
//! enumeration is stored as.

use vstd::prelude::*;
use crate::paths::path_equal;
use crate::strings::str_eq;

verus! {

broadcast use vstd::string::group_string_axioms;

/// The database signature stored under the key `signature`.
pub const DB_SIGNATURE: &'static str = "fcd";

/// The database layout version stored under the key `version`.
pub const DB_VERSION: &'static str = "1";

/// What to do when the target of a copy or move already exists.
#[derive(Debug, Clone, Copy, PartialEq, Eq, Structural)]
pub enum OnConflict {
    Overwrite,
    Skip,
    RenameExisting,
    RenameCopy,
}

pub open spec fn on_conflict_text(c: OnConflict) -> Seq<char> {
    match c {
        OnConflict::Overwrite => "OVERWRITE"@,
        OnConflict::Skip => "SKIP"@,
        OnConflict::RenameExisting => "RENAME_EXISTING"@,
        OnConflict::RenameCopy => "RENAME_COPY"@,
    }
}

impl OnConflict {
    /// The text the value is stored as.
    pub fn to_sql(&self) -> (r: &'static str)
        ensures
            r@ == on_conflict_text(*self),
    {
        match self {
            OnConflict::Overwrite => "OVERWRITE",
            OnConflict::Skip => "SKIP",
            OnConflict::RenameExisting => "RENAME_EXISTING",
            OnConflict::RenameCopy => "RENAME_COPY",
        }
    }

    /// The value stored as `text`, if any.
    pub fn column_result(text: &str) -> (r: Option<OnConflict>)
        ensures
            match r {
                Some(c) => text@ == on_conflict_text(c),
                None => forall|c: OnConflict| text@ != on_conflict_text(c),
            },
    {
        proof {
            reveal_strlit("OVERWRITE");
            reveal_strlit("SKIP");
            reveal_strlit("RENAME_EXISTING");
            reveal_strlit("RENAME_COPY");
        }
        if str_eq(text, "OVERWRITE") {
            Some(OnConflict::Overwrite)
        } else if str_eq(text, "SKIP") {
            Some(OnConflict::Skip)
        } else if str_eq(text, "RENAME_EXISTING") {
            Some(OnConflict::RenameExisting)
        } else if str_eq(text, "RENAME_COPY") {
            Some(OnConflict::RenameCopy)
        } else {
            None
        }
    }
}

/// The kind of a job.
#[derive(Debug, Clone, Copy, PartialEq, Eq, Structural)]
pub enum DBJobOperation {
    Cp,
    Mv,
    Rm,
}

pub open spec fn operation_text(o: DBJobOperation) -> Seq<char> {
    match o {
        DBJobOperation::Cp => "CP"@,
        DBJobOperation::Mv => "MV"@,
        DBJobOperation::Rm => "RM"@,
    }
}

pub open spec fn operation_label(o: DBJobOperation) -> Seq<char> {
    match o {
        DBJobOperation::Cp => "Copy"@,
        DBJobOperation::Mv => "Move"@,
        DBJobOperation::Rm => "Delete"@,
    }
}

impl DBJobOperation {
    /// The text the value is stored as.
    pub fn to_sql(&self) -> (r: &'static str)
        ensures
            r@ == operation_text(*self),
    {
        match self {
            DBJobOperation::Cp => "CP",
            DBJobOperation::Mv => "MV",
            DBJobOperation::Rm => "RM",
        }
    }

    /// The value stored as `text`, if any.
    pub fn column_result(text: &str) -> (r: Option<DBJobOperation>)
        ensures
            match r {
                Some(o) => text@ == operation_text(o),
                None => forall|o: DBJobOperation| text@ != operation_text(o),
            },
    {
        proof {
            reveal_strlit("CP");
            reveal_strlit("MV");
            reveal_strlit("RM");
        }
        if str_eq(text, "CP") {
            Some(DBJobOperation::Cp)
        } else if str_eq(text, "MV") {
            Some(DBJobOperation::Mv)
        } else if str_eq(text, "RM") {
            Some(DBJobOperation::Rm)
        } else {
            None
        }
    }

    /// The name shown to the user.
    pub fn label(&self) -> (r: &'static str)
        ensures
            r@ == operation_label(*self),
    {
        match self {
            DBJobOperation::Cp => "Copy",
            DBJobOperation::Mv => "Move",
            DBJobOperation::Rm => "Delete",
        }
    }
}

/// The state of a job.
#[derive(Debug, Clone, Copy, PartialEq, Eq, Structural)]
pub enum DBJobStatus {
    Dirscan,
    InProgress,
    Aborted,
    Done,
}

pub open spec fn job_status_text(s: DBJobStatus) -> Seq<char> {
    match s {
        DBJobStatus::Dirscan => "DIRSCAN"@,
        DBJobStatus::InProgress => "IN_PROGRESS"@,
        DBJobStatus::Aborted => "ABORTED"@,
        DBJobStatus::Done => "DONE"@,
    }
}

impl DBJobStatus {
    /// The text the value is stored as, which is also its name.
    pub fn to_sql(&self) -> (r: &'static str)
        ensures
            r@ == job_status_text(*self),
    {
        match self {
            DBJobStatus::Dirscan => "DIRSCAN",
            DBJobStatus::InProgress => "IN_PROGRESS",
            DBJobStatus::Aborted => "ABORTED",
            DBJobStatus::Done => "DONE",
        }
    }

    /// The value stored as `text`, if any.
    pub fn column_result(text: &str) -> (r: Option<DBJobStatus>)
        ensures
            match r {
                Some(s) => text@ == job_status_text(s),
                None => forall|s: DBJobStatus| text@ != job_status_text(s),
            },
    {
        proof {
            reveal_strlit("DIRSCAN");
            reveal_strlit("IN_PROGRESS");
            reveal_strlit("ABORTED");
            reveal_strlit("DONE");
        }
        if str_eq(text, "DIRSCAN") {
            Some(DBJobStatus::Dirscan)
        } else if str_eq(text, "IN_PROGRESS") {
            Some(DBJobStatus::InProgress)
        } else if str_eq(text, "ABORTED") {
            Some(DBJobStatus::Aborted)
        } else if str_eq(text, "DONE") {
            Some(DBJobStatus::Done)
        } else {
            None
        }
    }
}

/// The state of one file of a job.
#[derive(Debug, Clone, Copy, PartialEq, Eq, Structural)]
pub enum DBFileStatus {
    ToDo,
    InProgress,
    Error,
    Skipped,
    Done,
}

pub open spec fn file_status_text(s: DBFileStatus) -> Seq<char> {
    match s {
        DBFileStatus::ToDo => "TO_DO"@,
        DBFileStatus::InProgress => "IN_PROGRESS"@,
        DBFileStatus::Error => "ERROR"@,
        DBFileStatus::Skipped => "SKIPPED"@,
        DBFileStatus::Done => "DONE"@,
    }
}

impl DBFileStatus {
    /// The text the value is stored as.
    pub fn to_sql(&self) -> (r: &'static str)
        ensures
            r@ == file_status_text(*self),
    {
        match self {
            DBFileStatus::ToDo => "TO_DO",
            DBFileStatus::InProgress => "IN_PROGRESS",
            DBFileStatus::Error => "ERROR",
            DBFileStatus::Skipped => "SKIPPED",
            DBFileStatus::Done => "DONE",
        }
    }

    /// The value stored as `text`, if any.
    pub fn column_result(text: &str) -> (r: Option<DBFileStatus>)
        ensures
            match r {
                Some(s) => text@ == file_status_text(s),
                None => forall|s: DBFileStatus| text@ != file_status_text(s),
            },
    {
        proof {
            reveal_strlit("TO_DO");
            reveal_strlit("IN_PROGRESS");
            reveal_strlit("ERROR");
            reveal_strlit("SKIPPED");
            reveal_strlit("DONE");
        }
        if str_eq(text, "TO_DO") {
            Some(DBFileStatus::ToDo)
        } else if str_eq(text, "IN_PROGRESS") {
            Some(DBFileStatus::InProgress)
        } else if str_eq(text, "ERROR") {
            Some(DBFileStatus::Error)
        } else if str_eq(text, "SKIPPED") {
            Some(DBFileStatus::Skipped)
        } else if str_eq(text, "DONE") {
            Some(DBFileStatus::Done)
        } else {
            None
        }
    }
}

/// Different values are stored as different texts, so every value is read
/// back from the text it is stored as.
pub proof fn law_stored_text_round_trip(
    c: OnConflict,
    o: DBJobOperation,
    j: DBJobStatus,
    f: DBFileStatus,
)
    ensures
        forall|c2: OnConflict| on_conflict_text(c2) == on_conflict_text(c) ==> c2 == c,
        forall|o2: DBJobOperation| operation_text(o2) == operation_text(o) ==> o2 == o,
        forall|j2: DBJobStatus| job_status_text(j2) == job_status_text(j) ==> j2 == j,
        forall|f2: DBFileStatus| file_status_text(f2) == file_status_text(f) ==> f2 == f,
{
    reveal_strlit("OVERWRITE");
    reveal_strlit("SKIP");
    reveal_strlit("RENAME_EXISTING");
    reveal_strlit("RENAME_COPY");
    reveal_strlit("CP");
    reveal_strlit("MV");
    reveal_strlit("RM");
    reveal_strlit("DIRSCAN");
    reveal_strlit("IN_PROGRESS");
    reveal_strlit("ABORTED");
    reveal_strlit("DONE");
    reveal_strlit("TO_DO");
    reveal_strlit("ERROR");
    reveal_strlit("SKIPPED");
    assert forall|c2: OnConflict| on_conflict_text(c2) == on_conflict_text(c) implies c2 == c by {
        assert(on_conflict_text(c2).len() == on_conflict_text(c).len());
    }
    assert forall|o2: DBJobOperation| operation_text(o2) == operation_text(o) implies o2 == o by {
        assert(operation_text(o2)[0] == operation_text(o)[0]);
    }
    assert forall|j2: DBJobStatus| job_status_text(j2) == job_status_text(j) implies j2 == j by {
        assert(job_status_text(j2).len() == job_status_text(j).len());
        assert(job_status_text(j2)[0] == job_status_text(j)[0]);
    }
    assert forall|f2: DBFileStatus| file_status_text(f2) == file_status_text(f) implies f2 == f by {
        assert(file_status_text(f2).len() == file_status_text(f).len());
        assert(file_status_text(f2)[0] == file_status_text(f)[0]);
    }
}

/// A file or directory selected for a job.
#[derive(Debug, Clone)]
pub struct DBEntriesEntry {
    pub id: i64,
    pub job_id: i64,
    pub file: String,
    pub is_file: bool,
    pub is_dir: bool,
    pub is_symlink: bool,
    pub size: u64,
    pub uid: u32,
    pub gid: u32,
}

/// A file of a job, with its progress.
#[derive(Debug, Clone)]
pub struct DBFileEntry {
    pub id: i64,
    pub job_id: i64,
    pub file: String,
    pub is_file: bool,
    pub is_dir: bool,
    pub is_symlink: bool,
    pub size: u64,
    pub uid: u32,
    pub gid: u32,
    pub status: DBFileStatus,
    pub message: String,

    // These are set during the Cp/Mv operations
    pub target_is_dir: bool,
    pub target_is_symlink: bool,
    pub cur_target: Option<String>,
}

/// A directory whose metadata is set (and which is removed, for a move) once
/// its contents are done.
#[derive(Debug, Clone)]
pub struct DBDirListEntry {
    pub id: i64,
    pub job_id: i64,
    pub file: DBFileEntry,
    pub cur_file: String,
    pub cur_target: String,
    pub new_dir: bool,
    pub status: DBFileStatus,
    pub message: String,
}

/// A directory copied under a new name because its target existed.
#[derive(Debug, Clone)]
pub struct DBRenameDirEntry {
    pub id: i64,
    pub job_id: i64,
    pub existing_target: String,
    pub cur_target: String,
}

/// A directory moved as a whole, whose contents need no more work.
#[derive(Debug, Clone)]
pub struct DBSkipDirEntry {
    pub id: i64,
    pub job_id: i64,
    pub file: String,
}

/// A job.
#[derive(Debug, Clone)]
pub struct DBJobEntry {
    pub id: i64,
    pub pid: u32,
    pub operation: DBJobOperation,
    pub cwd: String,
    pub entries: Vec<DBEntriesEntry>,
    pub dest: Option<String>,
    pub on_conflict: Option<OnConflict>,
    pub replace_first_path: bool,
    pub archives: Vec<String>,
    pub status: DBJobStatus,
}

/// What to do with a database that was opened.
#[derive(Debug, Clone, Copy, PartialEq, Eq, Structural)]
pub enum DBCheck {
    /// The database is usable as it is.
    Keep,
    /// The database has another layout version: delete it and create it anew.
    Recreate,
    /// The file is not a job database.
    Unknown,
}

/// Decides on an opened database from its stored signature and version.
pub fn check_database(signature: &str, version: &str) -> (r: DBCheck)
    ensures
        r == if signature@ != DB_SIGNATURE@ {
            DBCheck::Unknown
        } else if version@ != DB_VERSION@ {
            DBCheck::Recreate
        } else {
            DBCheck::Keep
        },
{
    if str_eq(signature, DB_SIGNATURE) {
        if str_eq(version, DB_VERSION) {
            DBCheck::Keep
        } else {
            DBCheck::Recreate
        }
    } else {
        DBCheck::Unknown
    }
}

/// Whether a stored job is pending (interrupted) for the process `pid` whose
/// executable is `exe`: it was left by this very process id, or the process
/// that owns it is not another instance of the same executable.
/// `job_exe` is the executable of the process `job_pid`, when it exists.
pub fn job_is_pending(job_pid: u32, pid: u32, exe: Option<&str>, job_exe: Option<&str>) -> (r: bool)
    ensures
        r == (job_pid == pid || !(exe is Some && job_exe is Some && path_equal(
            exe.unwrap()@,
            job_exe.unwrap()@,
        ))),
{
    if job_pid == pid {
        return true;
    }
    match (exe, job_exe) {
        (Some(e1), Some(e2)) => !crate::paths::equal(e1, e2),
        _ => true,
    }
}

} // verus!
