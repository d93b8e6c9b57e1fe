//! The decisions around the file manager's jobs and the commands that name
//! new paths: which mounted archives a job depends on, when a finished job
//! is reported, how interrupted jobs are taken up again, and where a new
//! directory, a renamed file or a saved report goes.

use vstd::prelude::*;
use crate::archive_mounter::{archive_path_map, entries_view, names_view, remap, unarchive_path_map, ArchiveEntry};
use crate::database::{DBDirListEntry, DBFileEntry, DBFileStatus, DBJobEntry, DBJobOperation, DBJobStatus};
use crate::panel::{escape_percent, escape_percent_spec};
use crate::paths::{
    clean, has_ancestor, join, parent, path_clean, path_has_ancestor, path_join, path_parent, paths_match,
    same_path,
};
use crate::strings::{chars_of, push_str};

verus! {

broadcast use vstd::string::group_string_axioms;

// ---------------------------------------------------------------------------
// Reports

/// A finished job is reported when it was aborted, or when a file or a
/// directory of it was skipped or carries a message.
pub open spec fn needs_report_spec(
    status: DBJobStatus,
    files: Seq<DBFileEntry>,
    dirs: Seq<DBDirListEntry>,
) -> bool {
    ||| status == DBJobStatus::Aborted
    ||| exists|i: int|
        0 <= i < files.len() && (#[trigger] files[i].status == DBFileStatus::Skipped || files[i].message@.len()
            > 0)
    ||| exists|i: int|
        0 <= i < dirs.len() && (#[trigger] dirs[i].status == DBFileStatus::Skipped || dirs[i].message@.len()
            > 0)
}

/// Whether a finished job is shown in a report (else it is simply deleted).
pub fn needs_report(status: DBJobStatus, files: &[DBFileEntry], dirs: &[DBDirListEntry]) -> (r: bool)
    ensures
        r == needs_report_spec(status, files@, dirs@),
{
    if status == DBJobStatus::Aborted {
        return true;
    }
    let mut i: usize = 0;
    while i < files.len()
        invariant
            i <= files@.len(),
            forall|j: int|
                0 <= j < i ==> !(#[trigger] files@[j].status == DBFileStatus::Skipped || files@[j].message@.len()
                    > 0),
        decreases files.len() - i,
    {
        if files[i].status == DBFileStatus::Skipped || !files[i].message.as_str().is_empty() {
            return true;
        }
        i += 1;
    }
    let mut k: usize = 0;
    while k < dirs.len()
        invariant
            k <= dirs@.len(),
            forall|j: int|
                0 <= j < files@.len() ==> !(#[trigger] files@[j].status == DBFileStatus::Skipped
                    || files@[j].message@.len() > 0),
            forall|j: int|
                0 <= j < k ==> !(#[trigger] dirs@[j].status == DBFileStatus::Skipped || dirs@[j].message@.len()
                    > 0),
        decreases dirs.len() - k,
    {
        if dirs[k].status == DBFileStatus::Skipped || !dirs[k].message.as_str().is_empty() {
            return true;
        }
        k += 1;
    }
    false
}

// ---------------------------------------------------------------------------
// The archives of a job

/// The archive is (an ancestor of) the job's directory or its destination.
pub open spec fn archive_needed(archive: Seq<char>, cwd: Seq<char>, dest: Option<Seq<char>>) -> bool {
    path_has_ancestor(cwd, archive) || (dest matches Some(d) && path_has_ancestor(d, archive))
}

/// The mounted archives a job depends on, in the order they were mounted.
pub open spec fn needed_archives(
    dirs: Seq<(Seq<char>, Seq<char>)>,
    cwd: Seq<char>,
    dest: Option<Seq<char>>,
) -> Seq<(Seq<char>, Seq<char>)> {
    dirs.filter(|e: (Seq<char>, Seq<char>)| archive_needed(e.0, cwd, dest))
}

/// The mounted archives that a job in `archive_cwd` (going to
/// `archive_dest`) depends on: those that are, or contain, one of them.
pub fn job_archives(archive_dirs: &[ArchiveEntry], archive_cwd: &str, archive_dest: Option<&str>) -> (r: Vec<
    ArchiveEntry,
>)
    ensures
        entries_view(r@) == needed_archives(
            entries_view(archive_dirs@),
            archive_cwd@,
            match archive_dest {
                Some(d) => Some(d@),
                None => None,
            },
        ),
{
    let ghost dest = match archive_dest {
        Some(d) => Some(d@),
        None => None::<Seq<char>>,
    };
    let ghost pred = |e: (Seq<char>, Seq<char>)| archive_needed(e.0, archive_cwd@, dest);
    let mut r: Vec<ArchiveEntry> = Vec::new();
    let mut i: usize = 0;
    while i < archive_dirs.len()
        invariant
            i <= archive_dirs@.len(),
            dest == match archive_dest {
                Some(d) => Some(d@),
                None => None::<Seq<char>>,
            },
            pred == (|e: (Seq<char>, Seq<char>)| archive_needed(e.0, archive_cwd@, dest)),
            entries_view(r@) == entries_view(archive_dirs@).take(i as int).filter(pred),
        decreases archive_dirs.len() - i,
    {
        let ghost before = entries_view(archive_dirs@).take(i as int);
        let file = archive_dirs[i].archive_file.as_str();
        let keep = has_ancestor(archive_cwd, file) || match archive_dest {
            Some(d) => has_ancestor(d, file),
            None => false,
        };
        proof {
            let after = entries_view(archive_dirs@).take(i + 1);
            assert(after.drop_last() =~= before);
            assert(after.last() == archive_dirs@[i as int]@);
            before.lemma_filter_push(archive_dirs@[i as int]@, pred);
            assert(after =~= before.push(archive_dirs@[i as int]@));
        }
        if keep {
            let e = archive_dirs[i].duplicate();
            r.push(e);
            proof {
                assert(entries_view(r@) =~= entries_view(r@.drop_last()).push(e@));
            }
        }
        i += 1;
    }
    proof {
        assert(entries_view(archive_dirs@).take(archive_dirs@.len() as int) =~= entries_view(archive_dirs@));
    }
    r
}

// ---------------------------------------------------------------------------
// Interrupted jobs

/// What to do next while taking up interrupted jobs.
#[derive(Debug)]
pub enum PendingStep {
    /// Nothing is left to take up.
    Nothing,
    /// Ask the user what to do with this job.
    AskAbout(DBJobEntry),
    /// Mount this archive, then go on with the next one.
    Mount(String),
    /// Show this error; once it is closed, go on with the next job.
    ErrorThenNextJob(String),
    /// Scan the job's entries again.
    Dirscan(DBJobEntry),
    /// Resume the job with the files stored for it.
    Resume(DBJobOperation, DBJobEntry),
    /// The job had ended: report on it.
    Completed(DBJobEntry),
}

/// The interrupted jobs still to take up, and the one whose archives are
/// being mounted, with the archives still to mount (the next one last).
pub struct PendingJobs {
    pub jobs: Vec<DBJobEntry>,
    pub job: Option<DBJobEntry>,
    pub archives: Vec<String>,
}

/// The error when a job needs an archive but nothing can mount one.
pub open spec fn no_mounter_message() -> Seq<char> {
    "archivefs/archivemount executable not found"@
}

/// What a job whose archives are all mounted goes on with.
pub open spec fn job_step(job: DBJobEntry, r: PendingStep) -> bool {
    match job.status {
        DBJobStatus::Dirscan => r == PendingStep::Dirscan(job),
        DBJobStatus::InProgress => r == PendingStep::Resume(job.operation, job),
        _ => r == PendingStep::Completed(job),
    }
}

impl PendingJobs {
    /// The jobs to take up, the last one first.
    pub fn new(jobs: Vec<DBJobEntry>) -> (r: PendingJobs)
        ensures
            r.jobs@ == jobs@,
            r.job is None,
            r.archives@.len() == 0,
    {
        PendingJobs { jobs, job: None, archives: Vec::new() }
    }

    /// Takes the next job to ask the user about.
    pub fn next_job(&mut self) -> (r: PendingStep)
        ensures
            final(self).job == old(self).job,
            final(self).archives@ == old(self).archives@,
            if old(self).jobs.len() > 0 {
                &&& final(self).jobs@ == old(self).jobs@.drop_last()
                &&& r == PendingStep::AskAbout(old(self).jobs@.last())
            } else {
                &&& final(self).jobs@ == old(self).jobs@
                &&& r == PendingStep::Nothing
            },
    {
        match self.jobs.pop() {
            Some(job) => PendingStep::AskAbout(job),
            None => PendingStep::Nothing,
        }
    }

    /// The user takes `job` up: its archives are to be mounted, in the
    /// order the job lists them.
    pub fn mount_archives_for(&mut self, job: DBJobEntry)
        ensures
            final(self).jobs@ == old(self).jobs@,
            final(self).job == Some(job),
            names_view(final(self).archives@) == names_view(job.archives@).reverse(),
    {
        let mut archives: Vec<String> = Vec::new();
        let n = job.archives.len();
        let mut k: usize = 0;
        while k < n
            invariant
                n == job.archives@.len(),
                k <= n,
                archives@.len() == k,
                forall|j: int| 0 <= j < k ==> #[trigger] archives@[j]@ == job.archives@[n - 1 - j]@,
            decreases n - k,
        {
            let a = job.archives[n - 1 - k].clone();
            archives.push(a);
            k += 1;
        }
        proof {
            let rev = names_view(job.archives@).reverse();
            if n > 0 {
                assert forall|j: int| 0 <= j < n implies #[trigger] names_view(archives@)[j] == rev[j] by {
                    assert(archives@[j]@ == job.archives@[n - 1 - j]@);
                }
            }
            assert(names_view(archives@) =~= rev);
        }
        self.archives = archives;
        self.job = Some(job);
    }

    /// Goes on with the job being taken up: mounts its next archive, or,
    /// when all are mounted, goes on with the job itself.  Without a way to
    /// mount archives, the job is dropped with an error.
    pub fn next_archive(&mut self, can_mount: bool) -> (r: PendingStep)
        requires
            old(self).archives.len() > 0 || old(self).job is Some,
        ensures
            final(self).jobs@ == old(self).jobs@,
            if old(self).archives.len() > 0 {
                if can_mount {
                    &&& r matches PendingStep::Mount(a) && a@ == old(self).archives@.last()@
                    &&& final(self).archives@ == old(self).archives@.drop_last()
                    &&& final(self).job == old(self).job
                } else {
                    &&& r matches PendingStep::ErrorThenNextJob(m) && m@ == no_mounter_message()
                    &&& final(self).archives@.len() == 0
                    &&& final(self).job is None
                }
            } else {
                &&& job_step(old(self).job.unwrap(), r)
                &&& final(self).archives@ == old(self).archives@
                &&& final(self).job is None
            },
    {
        match self.archives.pop() {
            Some(archive) => {
                if can_mount {
                    PendingStep::Mount(archive)
                } else {
                    self.archives = Vec::new();
                    self.job = None;
                    PendingStep::ErrorThenNextJob("archivefs/archivemount executable not found".to_string())
                }
            },
            None => {
                let job = self.job.take().unwrap();
                match job.status {
                    DBJobStatus::Dirscan => PendingStep::Dirscan(job),
                    DBJobStatus::InProgress => {
                        let operation = job.operation;
                        PendingStep::Resume(operation, job)
                    },
                    _ => PendingStep::Completed(job),
                }
            },
        }
    }

    /// An archive was mounted: a job being taken up goes on.
    pub fn archive_mounted(&mut self, can_mount: bool) -> (r: PendingStep)
        ensures
            final(self).jobs@ == old(self).jobs@,
            old(self).job is None ==> r == PendingStep::Nothing && final(self).job is None
                && final(self).archives@ == old(self).archives@,
            old(self).job is Some && old(self).archives.len() > 0 && can_mount ==> (r matches PendingStep::Mount(
                a,
            ) && a@ == old(self).archives@.last()@) && final(self).archives@ == old(self).archives@.drop_last(),
            old(self).job is Some && old(self).archives.len() == 0 ==> job_step(old(self).job.unwrap(), r)
                && final(self).job is None,
            old(self).job is Some && old(self).archives.len() > 0 && !can_mount ==> (r matches PendingStep::ErrorThenNextJob(
                m,
            ) && m@ == no_mounter_message()) && final(self).job is None,
    {
        if self.job.is_some() {
            self.next_archive(can_mount)
        } else {
            PendingStep::Nothing
        }
    }

    /// An archive could not be mounted: a job being taken up is dropped,
    /// with the error.
    pub fn archive_mount_error(&mut self, error: &str) -> (r: PendingStep)
        ensures
            final(self).jobs@ == old(self).jobs@,
            if old(self).job is Some {
                &&& r matches PendingStep::ErrorThenNextJob(m) && m@ == error@
                &&& final(self).archives@.len() == 0
                &&& final(self).job is None
            } else {
                &&& r == PendingStep::Nothing
                &&& final(self).archives@ == old(self).archives@
                &&& final(self).job is None
            },
    {
        if self.job.is_some() {
            self.archives = Vec::new();
            self.job = None;
            PendingStep::ErrorThenNextJob(error.to_string())
        } else {
            PendingStep::Nothing
        }
    }
}

// ---------------------------------------------------------------------------
// Paths named by the user

/// A path is absolute when it starts at the root.
pub open spec fn is_absolute_spec(path: Seq<char>) -> bool {
    path.len() > 0 && path[0] == '/'
}

/// Whether `path` is absolute (`Path::is_absolute` on Unix).
pub fn is_absolute(path: &str) -> (r: bool)
    ensures
        r == is_absolute_spec(path@),
{
    let v = chars_of(path);
    v.len() > 0 && v[0] == '/'
}

/// Where a directory to create, or a new name, given as `path` in the
/// directory `cwd`, lies: `path` itself when absolute, else under `cwd`,
/// cleaned either way.
pub open spec fn resolve_path_spec(cwd: Seq<char>, path: Seq<char>) -> Seq<char> {
    if is_absolute_spec(path) {
        path_clean(path)
    } else {
        path_clean(path_join(cwd, path))
    }
}

pub fn resolve_path(cwd: &str, path: &str) -> (r: String)
    ensures
        r@ == resolve_path_spec(cwd@, path@),
{
    if is_absolute(path) {
        clean(path)
    } else {
        let joined = join(cwd, path);
        clean(joined.as_str())
    }
}

/// Where a report given as `path` in the directory `cwd` is saved: `path`,
/// under `cwd` unless absolute, as reachable through the mounted archives.
pub fn report_path(cwd: &str, path: &str, archive_dirs: &[ArchiveEntry]) -> (r: String)
    ensures
        r@ == remap(
            if is_absolute_spec(path@) {
                path@
            } else {
                path_join(cwd@, path@)
            },
            entries_view(archive_dirs@),
            false,
        ),
{
    if is_absolute(path) {
        unarchive_path_map(path, archive_dirs)
    } else {
        let joined = join(cwd, path);
        unarchive_path_map(joined.as_str(), archive_dirs)
    }
}

/// The destination first offered for a copy or move: the other panel's
/// directory as the user sees it, with `%` doubled for the template.
pub fn copy_destination(other_cwd: &str, archive_dirs: &[ArchiveEntry]) -> (r: String)
    ensures
        r@ == escape_percent_spec(remap(other_cwd@, entries_view(archive_dirs@), true)),
{
    let shown = archive_path_map(other_cwd, archive_dirs);
    escape_percent(shown.as_str())
}

/// The directory a destination is put in when it is not one itself: its
/// parent, or the root.
pub fn dest_parent(dest: &str) -> (r: String)
    ensures
        r@ == match path_parent(dest@) {
            Some(p) => p,
            None => "/"@,
        },
{
    proof {
        reveal_strlit("/");
    }
    match parent(dest) {
        Some(p) => p,
        None => "/".to_string(),
    }
}

/// The error for a destination that is not a directory.
pub fn not_a_directory(path: &str) -> (r: String)
    ensures
        r@ == path@ + " is not a directory"@,
{
    let mut r = path.to_string();
    push_str(&mut r, " is not a directory");
    r
}

/// The position of the last `/` in `s`, if any.
pub open spec fn last_slash(s: Seq<char>) -> Option<int>
    decreases s.len(),
{
    if s.len() == 0 {
        None
    } else if s.last() == '/' {
        Some(s.len() - 1)
    } else {
        last_slash(s.drop_last())
    }
}

/// The text first offered when saving a report to `path`, and the cursor
/// position in it: after the directory part (at its last `/`), or the
/// text's length in bytes when it has no `/`.
pub fn save_report_prompt(path: &str) -> (r: (String, usize))
    ensures
        r.0@ == escape_percent_spec(path@),
        r.1 as int == match last_slash(r.0@) {
            Some(k) => k,
            None => (vstd::utf8::encode_utf8(r.0@).len() as usize) as int,
        },
{
    let text = escape_percent(path);
    let v = chars_of(text.as_str());
    let mut k: usize = v.len();
    assert(v@.take(k as int) =~= v@);
    while k > 0
        invariant
            k <= v@.len(),
            v@ == text@,
            text@ == escape_percent_spec(path@),
            last_slash(v@) == last_slash(v@.take(k as int)),
        decreases k,
    {
        if v[k - 1] == '/' {
            assert(v@.take(k as int).last() == '/');
            return (text, k - 1);
        }
        assert(v@.take(k as int).drop_last() =~= v@.take(k - 1));
        k -= 1;
    }
    assert(last_slash(v@.take(0)) is None);
    let len = text.as_str().len();
    (text, len)
}

// ---------------------------------------------------------------------------
// Renaming

/// Whether a rename goes ahead.
#[derive(Debug)]
pub enum RenameCheck {
    /// The new name is the file itself: nothing to do.
    NoOp,
    /// The rename is refused with this message.
    Error(String),
    /// Rename.
    Rename,
}

/// Decides on a rename from what is on disk: whether the new path exists,
/// and, when it does, the canonical forms of the new path and of the file
/// (or why they could not be had).
pub fn rename_check(
    target_exists: bool,
    canonical_target: Result<String, String>,
    canonical_source: Result<String, String>,
) -> (r: RenameCheck)
    ensures
        !target_exists ==> r is Rename,
        target_exists ==> match (canonical_target, canonical_source) {
            (Ok(t), Ok(s)) => if same_path(t@, s@) {
                r is NoOp
            } else {
                r matches RenameCheck::Error(m) && m@ == "File already exists"@
            },
            (Err(e), _) => r matches RenameCheck::Error(m) && m@ == e@,
            (Ok(_), Err(e)) => r matches RenameCheck::Error(m) && m@ == e@,
        },
{
    if !target_exists {
        return RenameCheck::Rename;
    }
    match (canonical_target, canonical_source) {
        (Ok(t), Ok(s)) => {
            if paths_match(t.as_str(), s.as_str()) {
                RenameCheck::NoOp
            } else {
                RenameCheck::Error("File already exists".to_string())
            }
        },
        (Err(e), _) => RenameCheck::Error(e),
        (Ok(_), Err(e)) => RenameCheck::Error(e),
    }
}

/// The entry a panel selects when it reloads after a file was renamed
/// within one directory: the file's new path, where the panel shows that
/// directory and had the file selected; else what it had selected.
/// `selected` is the selected entry's path and name.
pub fn reselect_after_rename(
    shows_directory: bool,
    cwd: &str,
    selected: Option<(&str, &str)>,
    old_name: &str,
    new_name: &str,
) -> (r: Option<String>)
    ensures
        r matches Some(x) ==> selected is Some,
        selected is Some ==> r is Some,
        selected matches Some((file, name)) ==> r.unwrap()@ == if shows_directory && name@ == old_name@ {
            path_join(cwd@, new_name@)
        } else {
            file@
        },
{
    match selected {
        Some((file, name)) => {
            if shows_directory && crate::strings::str_eq(name, old_name) {
                Some(join(cwd, new_name))
            } else {
                Some(file.to_string())
            }
        },
        None => None,
    }
}

} // verus!
