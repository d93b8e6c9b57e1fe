//! A delete job: the files in reverse path order, so that the contents of
//! a directory go before the directory, each removed by the caller and
//! recorded with the outcome.

use vstd::prelude::*;
use std::time::Duration;
use crate::archive_mounter::{entries_view, parent_remap, unarchive_parent_map, ArchiveEntry};
use crate::cp_mv_job::{has_ended, sort_by_file};
use crate::paths::file_lt;
use crate::database::{DBFileEntry, DBFileStatus, DBJobStatus};
use crate::strings::push_str;

verus! {

/// The progress of a delete job, as shown to the user.
#[derive(Debug, Clone)]
pub struct RmInfo {
    pub current: String,
    pub num_files: usize,
    pub total_time: Duration,
}

/// How removing a file went.
#[derive(Debug, Clone, Copy, PartialEq, Eq, Structural)]
pub enum RemoveOutcome {
    Removed,
    NotFound,
    Failed,
}

/// The status of a file after an attempt to remove it: removing a file that
/// does not exist is no error.
pub fn removal_status(outcome: RemoveOutcome) -> (r: DBFileStatus)
    ensures
        r == if outcome == RemoveOutcome::Failed { DBFileStatus::Error } else { DBFileStatus::Done },
{
    match outcome {
        RemoveOutcome::Removed => DBFileStatus::Done,
        RemoveOutcome::NotFound => DBFileStatus::Done,
        RemoveOutcome::Failed => DBFileStatus::Error,
    }
}


/// The files are in reverse path order: none sorts after one ahead of it.
pub open spec fn sorted_by_file_desc(s: Seq<DBFileEntry>) -> bool {
    forall|i: int, j: int| 0 <= i < j < s.len() ==> !file_lt(#[trigger] s[i].file@, #[trigger] s[j].file@)
}

/// The files in reverse path order.
pub fn sort_by_file_desc(files: Vec<DBFileEntry>) -> (r: Vec<DBFileEntry>)
    ensures
        sorted_by_file_desc(r@),
        r@.to_multiset() == files@.to_multiset(),
{
    let mut up = sort_by_file(files);
    let ghost s = up@;
    let n = up.len();
    let mut r: Vec<DBFileEntry> = Vec::new();
    while up.len() > 0
        invariant
            s.len() == n,
            up@ == s.take(up@.len() as int),
            r@.len() + up@.len() == n,
            forall|k: int| 0 <= k < r@.len() ==> #[trigger] r@[k] == s[n - 1 - k],
        decreases up.len(),
    {
        let ghost before = up@;
        let e = up.pop().unwrap();
        proof {
            assert(up@ =~= s.take(up@.len() as int));
        }
        r.push(e);
    }
    proof {
        assert forall|i: int, j: int| 0 <= i < j < r@.len() implies !file_lt(
            #[trigger] r@[i].file@,
            #[trigger] r@[j].file@,
        ) by {
            assert(r@[i] == s[n - 1 - i] && r@[j] == s[n - 1 - j]);
        }
        if n > 0 {
            assert forall|k: int| 0 <= k < n implies #[trigger] r@[k] == s.reverse()[k] by {}
        }
        assert(r@ =~= s.reverse());
        s.lemma_reverse_to_multiset();
    }
    r
}

/// What the delete job does next.
#[derive(Debug, Clone, Copy, PartialEq, Eq, Structural)]
pub enum RmStep {
    /// The next file had ended before (it is only counted).
    Counted,
    /// The file at this index is to be removed.
    Remove(usize),
    /// No file is left, or the job was aborted.
    Finished,
}

/// A delete job in progress.
pub struct RmJob {
    pub files: Vec<DBFileEntry>,
    /// The file being worked on, or the next one.
    pub next: usize,
    /// The files handled, as shown to the user.
    pub num_files: usize,
    pub aborted: bool,
}

impl RmJob {
    /// Every file handled is counted once.
    pub open spec fn wf(&self) -> bool {
        &&& self.next <= self.files.len()
        &&& self.num_files == self.next
    }

    /// A job over `files`, in any order.
    pub fn new(files: Vec<DBFileEntry>) -> (r: RmJob)
        ensures
            r.wf(),
            sorted_by_file_desc(r.files@),
            r.files@.to_multiset() == files@.to_multiset(),
            r.next == 0,
            !r.aborted,
    {
        RmJob { files: sort_by_file_desc(files), next: 0, num_files: 0, aborted: false }
    }

    /// The next step: a file that had ended before is counted, the next one
    /// to remove is handed out.
    pub fn step(&mut self) -> (r: RmStep)
        requires
            old(self).wf(),
        ensures
            final(self).wf(),
            final(self).files@ == old(self).files@,
            final(self).aborted == old(self).aborted,
            if old(self).aborted || old(self).next == old(self).files.len() {
                r == RmStep::Finished && final(self).next == old(self).next
            } else if has_ended(old(self).files@[old(self).next as int].status) {
                r == RmStep::Counted && final(self).next == old(self).next + 1
            } else {
                r == RmStep::Remove(old(self).next) && final(self).next == old(self).next
            },
    {
        if self.aborted || self.next == self.files.len() {
            return RmStep::Finished;
        }
        let status = self.files[self.next].status;
        if status == DBFileStatus::Error || status == DBFileStatus::Skipped || status == DBFileStatus::Done {
            self.next = self.next + 1;
            self.num_files = self.num_files + 1;
            RmStep::Counted
        } else {
            RmStep::Remove(self.next)
        }
    }

    /// Where the file to remove can be reached.
    pub fn actual_file(&self, archive_dirs: &[ArchiveEntry]) -> (r: String)
        requires
            self.wf(),
            self.next < self.files.len(),
        ensures
            r@ == parent_remap(self.files@[self.next as int].file@, entries_view(archive_dirs@), false),
    {
        unarchive_parent_map(self.files[self.next].file.as_str(), archive_dirs)
    }

    /// Records the file being worked on with `status` and, when given, a
    /// message, and goes on with the next one.
    fn record(&mut self, status: DBFileStatus, message: Option<String>)
        requires
            old(self).wf(),
            !old(self).aborted,
            old(self).next < old(self).files.len(),
        ensures
            final(self).wf(),
            !final(self).aborted,
            final(self).next == old(self).next + 1,
            final(self).files@.len() == old(self).files@.len(),
            forall|k: int| 0 <= k < final(self).files@.len() && k != old(self).next ==> #[trigger] final(self).files@[k] == old(self).files@[k],
            ({
                let a = old(self).files@[old(self).next as int];
                let b = final(self).files@[old(self).next as int];
                &&& b.id == a.id && b.job_id == a.job_id && b.file == a.file
                &&& b.is_file == a.is_file && b.is_dir == a.is_dir && b.is_symlink == a.is_symlink
                &&& b.size == a.size && b.uid == a.uid && b.gid == a.gid
                &&& b.target_is_dir == a.target_is_dir && b.target_is_symlink == a.target_is_symlink
                &&& b.cur_target == a.cur_target
                &&& b.status == status
                &&& match message {
                    Some(m) => b.message == m,
                    None => b.message == a.message,
                }
            }),
    {
        let i = self.next;
        let mut e = self.files.remove(i);
        e.status = status;
        match message {
            Some(m) => e.message = m,
            None => {},
        }
        self.files.insert(i, e);
        proof {
            assert(self.files@ =~= old(self).files@.update(i as int, e));
        }
        self.next = i + 1;
        self.num_files = self.num_files + 1;
    }

    /// The user skips the file being worked on.
    pub fn skip_current(&mut self)
        requires
            old(self).wf(),
            !old(self).aborted,
            old(self).next < old(self).files.len(),
        ensures
            final(self).wf(),
            final(self).next == old(self).next + 1,
            final(self).files@ == old(self).files@.update(
                old(self).next as int,
                final(self).files@[old(self).next as int],
            ),
            final(self).files@[old(self).next as int].status == DBFileStatus::Skipped,
            final(self).files@[old(self).next as int].message == old(self).files@[old(self).next as int].message,
    {
        self.record(DBFileStatus::Skipped, None);
        proof {
            assert(self.files@ =~= old(self).files@.update(old(self).next as int, self.files@[old(self).next as int]));
        }
    }

    /// The user aborts: no more files are removed.
    pub fn abort(&mut self)
        requires
            old(self).wf(),
        ensures
            final(self).wf(),
            final(self).aborted,
            final(self).files@ == old(self).files@,
            final(self).next == old(self).next,
    {
        self.aborted = true;
    }

    /// The file being worked on was removed (or was already gone), or could
    /// not be, with the error.
    pub fn removed(&mut self, outcome: RemoveOutcome, error: &str)
        requires
            old(self).wf(),
            !old(self).aborted,
            old(self).next < old(self).files.len(),
        ensures
            final(self).wf(),
            final(self).next == old(self).next + 1,
            final(self).files@ == old(self).files@.update(
                old(self).next as int,
                final(self).files@[old(self).next as int],
            ),
            ({
                let a = old(self).files@[old(self).next as int];
                let b = final(self).files@[old(self).next as int];
                &&& b.file == a.file && b.size == a.size && b.is_dir == a.is_dir
                &&& if outcome == RemoveOutcome::Failed {
                    b.status == DBFileStatus::Error && b.message@ == "(rm) "@ + error@
                } else {
                    b.status == DBFileStatus::Done && b.message == a.message
                }
            }),
    {
        let status = removal_status(outcome);
        if outcome == RemoveOutcome::Failed {
            let mut m = "(rm) ".to_string();
            push_str(&mut m, error);
            self.record(status, Some(m));
        } else {
            self.record(status, None);
        }
        proof {
            assert(self.files@ =~= old(self).files@.update(old(self).next as int, self.files@[old(self).next as int]));
        }
    }

    /// The files and the job's outcome: done, unless it was aborted.
    pub fn finish(self) -> (r: (Vec<DBFileEntry>, DBJobStatus))
        ensures
            r.0@ == self.files@,
            r.1 == if self.aborted {
                DBJobStatus::Aborted
            } else {
                DBJobStatus::Done
            },
    {
        let status = if self.aborted {
            DBJobStatus::Aborted
        } else {
            DBJobStatus::Done
        };
        (self.files, status)
    }
}

} // verus!
