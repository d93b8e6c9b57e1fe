//! A copy or move job as a state machine: the files in path order, each
//! planned (where it goes, given the directories already moved whole or
//! copied under new names), started, and finished with the outcome of the
//! file operations that the caller performs; then the directories, last
//! first, whose metadata is set (and which are removed, for a move) once
//! their contents are done.

use vstd::prelude::*;
use crate::archive_mounter::{entries_view, parent_remap, unarchive_parent_map, ArchiveEntry};
use crate::cp_mv::{
    needs_processing, popped_ids, rename_kept, resumed_message, resumed_message_spec, skip_kept,
    unwind_rename_dirs, unwind_skip_dirs, CpMvResult, DlgCpMvType, RenamedTarget,
};
use crate::database::{DBDirListEntry, DBFileEntry, DBFileStatus, DBJobStatus, DBRenameDirEntry, DBSkipDirEntry};
use crate::paths::{
    file_lt, join, lemma_file_lt_irreflexive, lemma_file_lt_transitive, path_diff, path_sorts_before, path_join, path_skip_first, relative_to, skip_first_component};
use crate::strings::{chars_of, push_str};

verus! {

broadcast use vstd::string::group_string_axioms;

// ---------------------------------------------------------------------------
// Path order

/// The files are in path order (`Path` order, component by component): none
/// sorts before one ahead of it.
pub open spec fn sorted_by_file(s: Seq<DBFileEntry>) -> bool {
    forall|i: int, j: int| 0 <= i < j < s.len() ==> !file_lt(#[trigger] s[j].file@, #[trigger] s[i].file@)
}

/// The files in path order; a file is placed after every file that does
/// not sort after it.
pub fn sort_by_file(files: Vec<DBFileEntry>) -> (r: Vec<DBFileEntry>)
    ensures
        sorted_by_file(r@),
        r@.to_multiset() == files@.to_multiset(),
{
    let ghost all = files@;
    let mut src = files;
    let mut r: Vec<DBFileEntry> = Vec::new();
    assert(r@.to_multiset().add(src@.to_multiset()) =~= all.to_multiset()) by {
        broadcast use vstd::seq_lib::group_to_multiset_ensures;

    }
    while src.len() > 0
        invariant
            sorted_by_file(r@),
            r@.to_multiset().add(src@.to_multiset()) == all.to_multiset(),
        decreases src.len(),
    {
        let ghost before = src@;
        let x = src.pop().unwrap();
        proof {
            broadcast use vstd::seq_lib::group_to_multiset_ensures;

            assert(before =~= src@.push(x));
            assert(src@.push(x).to_multiset() =~= src@.to_multiset().insert(x));
        }
        let mut p: usize = 0;
        while p < r.len() && !path_sorts_before(x.file.as_str(), r[p].file.as_str())
            invariant
                p <= r@.len(),
                forall|k: int| 0 <= k < p ==> !file_lt(x.file@, #[trigger] r@[k].file@),
            decreases r.len() - p,
        {
            p += 1;
        }
        let ghost old_r = r@;
        r.insert(p, x);
        proof {
            broadcast use vstd::seq_lib::group_to_multiset_ensures;

            let t = r@;
            assert(t == old_r.insert(p as int, x));
            assert forall|i: int, j: int| 0 <= i < j < t.len() implies !file_lt(
                #[trigger] t[j].file@,
                #[trigger] t[i].file@,
            ) by {
                if j < p {
                    assert(t[i] == old_r[i] && t[j] == old_r[j]);
                } else if j == p {
                    assert(t[i] == old_r[i]);
                } else if i < p {
                    assert(t[i] == old_r[i] && t[j] == old_r[j - 1]);
                } else if i == p {
                    assert(t[j] == old_r[j - 1]);
                    assert(file_lt(x.file@, old_r[p as int].file@));
                    if file_lt(old_r[j - 1].file@, x.file@) {
                        lemma_file_lt_transitive(old_r[j - 1].file@, x.file@, old_r[p as int].file@);
                        if j - 1 == p {
                            lemma_file_lt_irreflexive(old_r[p as int].file@);
                        }
                    }
                } else {
                    assert(t[i] == old_r[i - 1] && t[j] == old_r[j - 1]);
                }
            }
            assert(t.remove(p as int) =~= old_r);
            assert(t[p as int] == x);
            assert(t.remove(p as int).to_multiset() =~= t.to_multiset().remove(t[p as int]));
            assert(t.contains(x));
            assert(t.to_multiset().count(x) > 0);
            assert(t.to_multiset() =~= old_r.to_multiset().insert(x));
            assert(r@.to_multiset().add(src@.to_multiset()) =~= all.to_multiset());
        }
    }
    proof {
        broadcast use vstd::seq_lib::group_to_multiset_ensures;

        assert(src@.to_multiset().len() == 0);
        assert(src@.to_multiset() =~= vstd::multiset::Multiset::empty());
        assert(r@.to_multiset() =~= r@.to_multiset().add(src@.to_multiset()));
    }
    r
}


// ---------------------------------------------------------------------------
// Where a file goes

/// The target of a file given as `rel` relative to the job's directory:
/// under `dest`, without its first component when the destination names the
/// copy itself (rather than a directory to copy into).
pub open spec fn first_target(dest: Seq<char>, rel: Seq<char>, replace_first_path: bool) -> Seq<char> {
    path_join(dest, if replace_first_path { path_skip_first(rel) } else { rel })
}

/// The target once the directories copied under new names are accounted
/// for: under the new name of the innermost one it lies in (none when it
/// has no path relative to that directory).
pub open spec fn renamed_target(stack: Seq<DBRenameDirEntry>, target: Seq<char>) -> Option<Seq<char>> {
    let k = rename_kept(stack, target);
    if k == 0 {
        Some(target)
    } else {
        match path_diff(target, stack[k - 1].existing_target@) {
            Some(rel) => Some(path_join(stack[k - 1].cur_target@, rel)),
            None => None,
        }
    }
}

/// Where a file of a job goes, and where it and its target can be reached.
#[derive(Debug)]
pub struct EntryPlan {
    /// The file relative to the job's directory.
    pub rel_file: String,
    /// The file lies in a directory that was moved whole: nothing to do.
    pub skip_dir: bool,
    pub cur_target: String,
    pub actual_file: String,
    pub actual_target: String,
    /// The ids of the stack entries popped, last first.
    pub skip_popped: Vec<i64>,
    pub rename_popped: Vec<i64>,
}

// ---------------------------------------------------------------------------
// The job

/// The outcome of the file operations on one file or directory.
#[derive(Debug)]
pub enum FileOutcome {
    /// It ended with this status; the job goes on unless it is aborted.
    Ended(DBFileStatus, DBJobStatus),
    /// An operation failed: what it was, and the error's root cause.
    Failed(String, String),
}

/// A file or directory that ended before: done, skipped or failed.
pub open spec fn has_ended(status: DBFileStatus) -> bool {
    status == DBFileStatus::Error || status == DBFileStatus::Skipped || status == DBFileStatus::Done
}

/// The message of a failed file.
pub open spec fn failure_message(context: Seq<char>, cause: Seq<char>) -> Seq<char> {
    "("@ + context + ") "@ + cause
}

fn failure_text(context: &str, cause: &str) -> (r: String)
    ensures
        r@ == failure_message(context@, cause@),
{
    let mut r = "(".to_string();
    push_str(&mut r, context);
    push_str(&mut r, ") ");
    push_str(&mut r, cause);
    proof {
        reveal_strlit("(");
    }
    r
}

/// The total size of the files.
pub open spec fn size_sum(files: Seq<DBFileEntry>) -> int
    decreases files.len(),
{
    if files.len() == 0 {
        0
    } else {
        size_sum(files.drop_last()) + files.last().size
    }
}

/// `b` is `a` with only its status and message changed.
pub open spec fn same_but_status(a: DBFileEntry, b: DBFileEntry) -> bool {
    &&& b.id == a.id
    &&& b.job_id == a.job_id
    &&& b.file == a.file
    &&& b.is_file == a.is_file
    &&& b.is_dir == a.is_dir
    &&& b.is_symlink == a.is_symlink
    &&& b.size == a.size
    &&& b.uid == a.uid
    &&& b.gid == a.gid
    &&& b.target_is_dir == a.target_is_dir
    &&& b.target_is_symlink == a.target_is_symlink
    &&& b.cur_target == a.cur_target
}

/// What the job does next with its files.
#[derive(Debug, Clone, Copy, PartialEq, Eq, Structural)]
pub enum FileStep {
    /// The next file had ended before (it is only counted).
    Counted,
    /// The file at this index is to be copied or moved.
    Process(usize),
    /// No file is left: the directories come next.
    NoMoreFiles,
}

/// What the job does next with its directories.
#[derive(Debug, Clone, Copy, PartialEq, Eq, Structural)]
pub enum DirStep {
    /// The next directory had ended before.
    Passed,
    /// The directory at this index is to be finished.
    Process(usize),
    /// No directory is left.
    NoMoreDirs,
}

/// A copy or move job in progress.
pub struct CpMvJob {
    pub job_id: i64,
    pub mode: DlgCpMvType,
    pub files: Vec<DBFileEntry>,
    pub dirs: Vec<DBDirListEntry>,
    pub rename_stack: Vec<DBRenameDirEntry>,
    pub skip_stack: Vec<DBSkipDirEntry>,
    /// The file being worked on, or the next one.
    pub next_file: usize,
    pub files_ended: bool,
    /// The directories not yet visited, counted from the front (they are
    /// visited last first).
    pub dirs_left: usize,
    pub dirs_ended: bool,
    /// The progress shown: files handled and their total size.
    pub num_files: usize,
    pub total_bytes: u64,
    pub status: DBJobStatus,
}

impl CpMvJob {
    /// The files handled so far are counted, and their sizes added up.
    pub open spec fn wf(&self) -> bool {
        &&& self.next_file <= self.files.len()
        &&& self.num_files == self.next_file
        &&& self.total_bytes == size_sum(self.files@.take(self.next_file as int))
        &&& self.files_ended ==> self.dirs_left <= self.dirs.len()
        &&& !self.files_ended ==> !self.dirs_ended
    }

    /// Working on a file: the one at `next_file`.
    pub open spec fn in_file(&self) -> bool {
        self.wf() && !self.files_ended && self.next_file < self.files.len()
    }

    /// A job over `files` (in any order), with the directories, the stacks
    /// and the state stored for it.
    pub fn new(
        job_id: i64,
        mode: DlgCpMvType,
        files: Vec<DBFileEntry>,
        dirs: Vec<DBDirListEntry>,
        rename_stack: Vec<DBRenameDirEntry>,
        skip_stack: Vec<DBSkipDirEntry>,
    ) -> (r: CpMvJob)
        ensures
            r.wf(),
            sorted_by_file(r.files@),
            r.files@.to_multiset() == files@.to_multiset(),
            r.dirs@ == dirs@,
            r.rename_stack@ == rename_stack@,
            r.skip_stack@ == skip_stack@,
            r.job_id == job_id,
            r.mode == mode,
            r.next_file == 0,
            !r.files_ended,
            !r.dirs_ended,
            r.status == DBJobStatus::InProgress,
    {
        let files = sort_by_file(files);
        proof {
            assert(files@.take(0) =~= Seq::<DBFileEntry>::empty());
        }
        CpMvJob {
            job_id,
            mode,
            files,
            dirs,
            rename_stack,
            skip_stack,
            next_file: 0,
            files_ended: false,
            dirs_left: 0,
            dirs_ended: false,
            num_files: 0,
            total_bytes: 0,
            status: DBJobStatus::InProgress,
        }
    }

    proof fn lemma_count_next(&self)
        requires
            self.next_file < self.files.len(),
        ensures
            size_sum(self.files@.take(self.next_file + 1)) == size_sum(self.files@.take(self.next_file as int))
                + self.files@[self.next_file as int].size,
    {
        assert(self.files@.take(self.next_file + 1).drop_last() =~= self.files@.take(self.next_file as int));
    }

    /// The file being worked on is counted and the next one comes.
    fn count_file(&mut self)
        requires
            old(self).in_file(),
            old(self).total_bytes + old(self).files@[old(self).next_file as int].size <= u64::MAX,
        ensures
            final(self).wf(),
            final(self).next_file == old(self).next_file + 1,
            final(self).total_bytes == old(self).total_bytes + old(self).files@[old(self).next_file as int].size,
            final(self).files@ == old(self).files@,
            final(self).dirs@ == old(self).dirs@,
            final(self).rename_stack@ == old(self).rename_stack@,
            final(self).skip_stack@ == old(self).skip_stack@,
            final(self).status == old(self).status,
            final(self).files_ended == old(self).files_ended,
            final(self).dirs_ended == old(self).dirs_ended,
            final(self).dirs_left == old(self).dirs_left,
            final(self).job_id == old(self).job_id,
            final(self).mode == old(self).mode,
    {
        proof {
            self.lemma_count_next();
        }
        self.total_bytes = self.total_bytes + self.files[self.next_file].size;
        self.num_files = self.num_files + 1;
        self.next_file = self.next_file + 1;
    }

    /// The next step with the files: a file that had ended before is
    /// counted, one still to do is handed out, and past the last file the
    /// directories come.
    pub fn file_step(&mut self) -> (r: FileStep)
        requires
            old(self).wf(),
            !old(self).files_ended,
            old(self).next_file < old(self).files.len() ==> old(self).total_bytes + old(self).files@[old(
                self,
            ).next_file as int].size <= u64::MAX,
        ensures
            final(self).wf(),
            final(self).files@ == old(self).files@,
            final(self).dirs@ == old(self).dirs@,
            final(self).rename_stack@ == old(self).rename_stack@,
            final(self).skip_stack@ == old(self).skip_stack@,
            final(self).status == old(self).status,
            final(self).job_id == old(self).job_id,
            final(self).mode == old(self).mode,
            !final(self).dirs_ended,
            old(self).next_file == old(self).files.len() ==> {
                &&& r == FileStep::NoMoreFiles
                &&& final(self).files_ended
                &&& final(self).dirs_left == old(self).dirs.len()
                &&& final(self).next_file == old(self).next_file
            },
            old(self).next_file < old(self).files.len() ==> {
                let e = old(self).files@[old(self).next_file as int];
                &&& !final(self).files_ended
                &&& if !has_ended(e.status) {
                    &&& r == FileStep::Process(old(self).next_file)
                    &&& final(self).next_file == old(self).next_file
                } else {
                    &&& r == FileStep::Counted
                    &&& final(self).next_file == old(self).next_file + 1
                }
            },
    {
        if self.next_file == self.files.len() {
            self.files_ended = true;
            self.dirs_left = self.dirs.len();
            return FileStep::NoMoreFiles;
        }
        if needs_processing(self.files[self.next_file].status) {
            FileStep::Process(self.next_file)
        } else {
            self.count_file();
            FileStep::Counted
        }
    }

    /// The file being worked on.
    pub fn current(&self) -> (r: &DBFileEntry)
        requires
            self.in_file(),
        ensures
            *r == self.files@[self.next_file as int],
    {
        &self.files[self.next_file]
    }

    /// Changes the file being worked on with `f`'s result.
    fn replace_current(&mut self, e: DBFileEntry)
        requires
            old(self).in_file(),
            e.size == old(self).files@[old(self).next_file as int].size,
        ensures
            final(self).in_file(),
            final(self).files@ == old(self).files@.update(old(self).next_file as int, e),
            final(self).next_file == old(self).next_file,
            final(self).dirs@ == old(self).dirs@,
            final(self).rename_stack@ == old(self).rename_stack@,
            final(self).skip_stack@ == old(self).skip_stack@,
            final(self).status == old(self).status,
            final(self).total_bytes == old(self).total_bytes,
            final(self).job_id == old(self).job_id,
            final(self).mode == old(self).mode,
            final(self).files_ended == old(self).files_ended,
            final(self).dirs_ended == old(self).dirs_ended,
            final(self).dirs_left == old(self).dirs_left,
    {
        let i = self.next_file;
        self.files.set(i, e);
        proof {
            assert(self.files@.take(i as int) =~= old(self).files@.take(i as int));
        }
    }

    fn take_current(&mut self) -> (r: DBFileEntry)
        requires
            old(self).in_file(),
        ensures
            r == old(self).files@[old(self).next_file as int],
            final(self).files@.len() == old(self).files@.len() - 1,
            final(self).files@ == old(self).files@.remove(old(self).next_file as int),
            final(self).next_file == old(self).next_file,
            final(self).dirs@ == old(self).dirs@,
            final(self).rename_stack@ == old(self).rename_stack@,
            final(self).skip_stack@ == old(self).skip_stack@,
            final(self).status == old(self).status,
            final(self).total_bytes == old(self).total_bytes,
            final(self).num_files == old(self).num_files,
            final(self).job_id == old(self).job_id,
            final(self).mode == old(self).mode,
            final(self).files_ended == old(self).files_ended,
            final(self).dirs_ended == old(self).dirs_ended,
            final(self).dirs_left == old(self).dirs_left,
    {
        self.files.remove(self.next_file)
    }

    fn put_current(&mut self, e: DBFileEntry)
        requires
            old(self).next_file <= old(self).files@.len(),
        ensures
            final(self).files@ == old(self).files@.insert(old(self).next_file as int, e),
            final(self).next_file == old(self).next_file,
            final(self).dirs@ == old(self).dirs@,
            final(self).rename_stack@ == old(self).rename_stack@,
            final(self).skip_stack@ == old(self).skip_stack@,
            final(self).status == old(self).status,
            final(self).total_bytes == old(self).total_bytes,
            final(self).num_files == old(self).num_files,
            final(self).job_id == old(self).job_id,
            final(self).mode == old(self).mode,
            final(self).files_ended == old(self).files_ended,
            final(self).dirs_ended == old(self).dirs_ended,
            final(self).dirs_left == old(self).dirs_left,
    {
        self.files.insert(self.next_file, e);
    }

    /// Where the file being worked on goes.  The directories moved whole
    /// and those copied under new names that it does not lie in are popped
    /// from their stacks.  `None` when the file has no path relative to the
    /// job's directory, or its target none relative to the renamed directory
    /// it lies in.
    pub fn plan_current(
        &mut self,
        cwd: &str,
        dest: &str,
        replace_first_path: bool,
        archive_dirs: &[ArchiveEntry],
    ) -> (r: Option<EntryPlan>)
        requires
            old(self).in_file(),
        ensures
            final(self).in_file(),
            final(self).files@ == old(self).files@,
            final(self).next_file == old(self).next_file,
            final(self).dirs@ == old(self).dirs@,
            final(self).status == old(self).status,
            final(self).job_id == old(self).job_id,
            final(self).mode == old(self).mode,
            ({
                let e = old(self).files@[old(self).next_file as int];
                match path_diff(e.file@, cwd@) {
                    None => {
                        &&& r is None
                        &&& final(self).skip_stack@ == old(self).skip_stack@
                        &&& final(self).rename_stack@ == old(self).rename_stack@
                    },
                    Some(rel) => {
                        let k = skip_kept(old(self).skip_stack@, e.file@);
                        let t0 = first_target(dest@, rel, replace_first_path);
                        let k2 = rename_kept(old(self).rename_stack@, t0);
                        &&& final(self).skip_stack@ == old(self).skip_stack@.take(k)
                        &&& final(self).rename_stack@ == old(self).rename_stack@.take(k2)
                        &&& match renamed_target(old(self).rename_stack@, t0) {
                            None => r is None,
                            Some(t1) => {
                                let target = if e.status == DBFileStatus::InProgress && e.cur_target is Some {
                                    e.cur_target.unwrap()@
                                } else {
                                    t1
                                };
                                &&& r is Some
                                &&& r.unwrap().rel_file@ == rel
                                &&& r.unwrap().skip_dir == (k > 0)
                                &&& r.unwrap().cur_target@ == target
                                &&& r.unwrap().actual_file@ == parent_remap(
                                    e.file@,
                                    entries_view(archive_dirs@),
                                    false,
                                )
                                &&& r.unwrap().actual_target@ == parent_remap(
                                    target,
                                    entries_view(archive_dirs@),
                                    false,
                                )
                                &&& r.unwrap().skip_popped@ == popped_ids(
                                    old(self).skip_stack@,
                                    k,
                                    |x: DBSkipDirEntry| x.id,
                                )
                                &&& r.unwrap().rename_popped@ == popped_ids(
                                    old(self).rename_stack@,
                                    k2,
                                    |x: DBRenameDirEntry| x.id,
                                )
                            },
                        }
                    },
                }
            }),
    {
        let i = self.next_file;
        let rel = match relative_to(self.files[i].file.as_str(), cwd) {
            Some(rel) => rel,
            None => return None,
        };
        let (skip_dir, skip_popped) = unwind_skip_dirs(&mut self.skip_stack, self.files[i].file.as_str());
        let t0 = if replace_first_path {
            let rest = skip_first_component(rel.as_str());
            join(dest, rest.as_str())
        } else {
            join(dest, rel.as_str())
        };
        let (renamed, rename_popped) = unwind_rename_dirs(&mut self.rename_stack, t0.as_str());
        let t1 = match renamed {
            RenamedTarget::Unchanged => t0,
            RenamedTarget::Renamed(t) => t,
            RenamedTarget::NoRelativePath => return None,
        };
        let cur_target = match (&self.files[i].status, &self.files[i].cur_target) {
            (DBFileStatus::InProgress, Some(t)) => t.clone(),
            _ => t1,
        };
        let actual_file = unarchive_parent_map(self.files[i].file.as_str(), archive_dirs);
        let actual_target = unarchive_parent_map(cur_target.as_str(), archive_dirs);
        Some(EntryPlan { rel_file: rel, skip_dir, cur_target, actual_file, actual_target, skip_popped, rename_popped })
    }

    /// The copy of the file being worked on resumes over what was written:
    /// its message says so.
    pub fn note_resumed(&mut self)
        requires
            old(self).in_file(),
        ensures
            final(self).in_file(),
            final(self).next_file == old(self).next_file,
            final(self).files@.len() == old(self).files@.len(),
            forall|j: int| 0 <= j < final(self).files@.len() && j != final(self).next_file ==> #[trigger] final(self).files@[j] == old(self).files@[j],
            ({
                let a = old(self).files@[old(self).next_file as int];
                let b = final(self).files@[final(self).next_file as int];
                &&& same_but_status(a, b)
                &&& b.status == a.status
                &&& b.message@ == resumed_message_spec(a.message@)
            }),
            final(self).dirs@ == old(self).dirs@,
            final(self).status == old(self).status,
    {
        let mut e = self.take_current();
        e.message = resumed_message(e.message.as_str());
        self.put_current(e);
        proof {
            assert(self.files@ =~= old(self).files@.update(self.next_file as int, e));
            assert(self.files@.take(self.next_file as int) =~= old(self).files@.take(self.next_file as int));
        }
    }

    /// Sets the message of the file being worked on.
    pub fn set_message(&mut self, message: String)
        requires
            old(self).in_file(),
        ensures
            final(self).in_file(),
            final(self).next_file == old(self).next_file,
            final(self).files@.len() == old(self).files@.len(),
            forall|j: int| 0 <= j < final(self).files@.len() && j != final(self).next_file ==> #[trigger] final(self).files@[j] == old(self).files@[j],
            ({
                let a = old(self).files@[old(self).next_file as int];
                let b = final(self).files@[final(self).next_file as int];
                &&& same_but_status(a, b)
                &&& b.status == a.status
                &&& b.message@ == message@
            }),
            final(self).dirs@ == old(self).dirs@,
            final(self).status == old(self).status,
    {
        let mut e = self.take_current();
        e.message = message;
        self.put_current(e);
        proof {
            assert(self.files@ =~= old(self).files@.update(self.next_file as int, e));
            assert(self.files@.take(self.next_file as int) =~= old(self).files@.take(self.next_file as int));
        }
    }

    /// The file being worked on is started: in progress, with what was found
    /// at its target and where it goes.
    pub fn start_current(&mut self, target_is_dir: bool, target_is_symlink: bool, cur_target: String)
        requires
            old(self).in_file(),
        ensures
            final(self).in_file(),
            final(self).next_file == old(self).next_file,
            final(self).files@.len() == old(self).files@.len(),
            forall|j: int| 0 <= j < final(self).files@.len() && j != final(self).next_file ==> #[trigger] final(self).files@[j] == old(self).files@[j],
            ({
                let a = old(self).files@[old(self).next_file as int];
                let b = final(self).files@[final(self).next_file as int];
                &&& b.id == a.id && b.job_id == a.job_id && b.file == a.file
                &&& b.is_file == a.is_file && b.is_dir == a.is_dir && b.is_symlink == a.is_symlink
                &&& b.size == a.size && b.uid == a.uid && b.gid == a.gid
                &&& b.message == a.message
                &&& b.status == DBFileStatus::InProgress
                &&& b.target_is_dir == target_is_dir
                &&& b.target_is_symlink == target_is_symlink
                &&& b.cur_target matches Some(t) && t@ == cur_target@
            }),
            final(self).dirs@ == old(self).dirs@,
            final(self).status == old(self).status,
    {
        let mut e = self.take_current();
        e.status = DBFileStatus::InProgress;
        e.target_is_dir = target_is_dir;
        e.target_is_symlink = target_is_symlink;
        e.cur_target = Some(cur_target);
        self.put_current(e);
        proof {
            assert(self.files@ =~= old(self).files@.update(self.next_file as int, e));
            assert(self.files@.take(self.next_file as int) =~= old(self).files@.take(self.next_file as int));
        }
    }

    /// A directory being worked on was copied under a new name: the files
    /// inside it follow it there.  (Nothing for a file.)
    pub fn push_renamed_dir(&mut self, existing_target: String, cur_target: String)
        requires
            old(self).in_file(),
        ensures
            final(self).in_file(),
            final(self).files@ == old(self).files@,
            final(self).next_file == old(self).next_file,
            final(self).skip_stack@ == old(self).skip_stack@,
            if old(self).files@[old(self).next_file as int].is_dir {
                &&& final(self).rename_stack@.drop_last() == old(self).rename_stack@
                &&& final(self).rename_stack@.len() == old(self).rename_stack@.len() + 1
                &&& final(self).rename_stack@.last().id == 0
                &&& final(self).rename_stack@.last().job_id == old(self).job_id
                &&& final(self).rename_stack@.last().existing_target@ == existing_target@
                &&& final(self).rename_stack@.last().cur_target@ == cur_target@
            } else {
                final(self).rename_stack@ == old(self).rename_stack@
            },
            final(self).dirs@ == old(self).dirs@,
            final(self).status == old(self).status,
    {
        if self.files[self.next_file].is_dir {
            self.rename_stack.push(DBRenameDirEntry { id: 0, job_id: self.job_id, existing_target, cur_target });
        }
    }

    /// A directory being worked on was moved whole by a rename: the files
    /// inside it need nothing more.  (Nothing for a file.)
    pub fn push_moved_dir(&mut self)
        requires
            old(self).in_file(),
        ensures
            final(self).in_file(),
            final(self).files@ == old(self).files@,
            final(self).next_file == old(self).next_file,
            final(self).rename_stack@ == old(self).rename_stack@,
            if old(self).files@[old(self).next_file as int].is_dir {
                &&& final(self).skip_stack@.drop_last() == old(self).skip_stack@
                &&& final(self).skip_stack@.len() == old(self).skip_stack@.len() + 1
                &&& final(self).skip_stack@.last().id == 0
                &&& final(self).skip_stack@.last().job_id == old(self).job_id
                &&& final(self).skip_stack@.last().file == old(self).files@[old(self).next_file as int].file
            } else {
                final(self).skip_stack@ == old(self).skip_stack@
            },
            final(self).dirs@ == old(self).dirs@,
            final(self).status == old(self).status,
    {
        if self.files[self.next_file].is_dir {
            let file = self.files[self.next_file].file.clone();
            self.skip_stack.push(DBSkipDirEntry { id: 0, job_id: self.job_id, file });
        }
    }

    /// The directory being worked on was made (or found) at its target: its
    /// metadata is set once its contents are done.
    pub fn push_dir(&mut self, cur_target: String, new_dir: bool)
        requires
            old(self).in_file(),
        ensures
            final(self).in_file(),
            final(self).files@ == old(self).files@,
            final(self).next_file == old(self).next_file,
            final(self).rename_stack@ == old(self).rename_stack@,
            final(self).skip_stack@ == old(self).skip_stack@,
            final(self).dirs@.drop_last() == old(self).dirs@,
            final(self).dirs@.len() == old(self).dirs@.len() + 1,
            ({
                let e = old(self).files@[old(self).next_file as int];
                let d = final(self).dirs@.last();
                &&& d.id == 0
                &&& d.job_id == old(self).job_id
                &&& d.file == e
                &&& d.cur_file@ == e.file@
                &&& d.cur_target@ == cur_target@
                &&& d.new_dir == new_dir
                &&& d.status == DBFileStatus::ToDo
                &&& d.message@.len() == 0
            }),
            final(self).status == old(self).status,
    {
        let e = self.take_current();
        let cur_file = e.file.clone();
        let copy = copy_entry(&e);
        self.put_current(e);
        proof {
            assert(self.files@ =~= old(self).files@);
        }
        self.dirs.push(
            DBDirListEntry {
                id: 0,
                job_id: self.job_id,
                file: copy,
                cur_file,
                cur_target,
                new_dir,
                status: DBFileStatus::ToDo,
                message: String::new(),
            },
        );
    }

    /// The file being worked on ended as `outcome` says.  Unless the job was
    /// aborted, it is counted and the next one comes; an abort ends the
    /// files (the directories still come).
    pub fn finish_current(&mut self, outcome: FileOutcome)
        requires
            old(self).in_file(),
            old(self).total_bytes + old(self).files@[old(self).next_file as int].size <= u64::MAX,
        ensures
            final(self).wf(),
            final(self).files@.len() == old(self).files@.len(),
            forall|j: int| 0 <= j < final(self).files@.len() && j != old(self).next_file ==> #[trigger] final(self).files@[j] == old(self).files@[j],
            final(self).dirs@ == old(self).dirs@,
            final(self).rename_stack@ == old(self).rename_stack@,
            final(self).skip_stack@ == old(self).skip_stack@,
            final(self).job_id == old(self).job_id,
            final(self).mode == old(self).mode,
            !final(self).dirs_ended,
            ({
                let i = old(self).next_file as int;
                let a = old(self).files@[i];
                let b = final(self).files@[i];
                &&& same_but_status(a, b)
                &&& match outcome {
                    FileOutcome::Ended(fs, js) => {
                        &&& b.status == fs
                        &&& b.message == a.message
                        &&& if js == DBJobStatus::Aborted {
                            &&& final(self).status == DBJobStatus::Aborted
                            &&& final(self).files_ended
                            &&& final(self).dirs_left == old(self).dirs.len()
                            &&& final(self).next_file == old(self).next_file
                        } else {
                            &&& final(self).status == old(self).status
                            &&& !final(self).files_ended
                            &&& final(self).next_file == old(self).next_file + 1
                        }
                    },
                    FileOutcome::Failed(context, cause) => {
                        &&& b.status == DBFileStatus::Error
                        &&& b.message@ == failure_message(context@, cause@)
                        &&& final(self).status == old(self).status
                        &&& !final(self).files_ended
                        &&& final(self).next_file == old(self).next_file + 1
                    },
                }
            }),
    {
        let mut e = self.take_current();
        let aborted = match outcome {
            FileOutcome::Ended(fs, js) => {
                e.status = fs;
                js == DBJobStatus::Aborted
            },
            FileOutcome::Failed(context, cause) => {
                e.message = failure_text(context.as_str(), cause.as_str());
                e.status = DBFileStatus::Error;
                false
            },
        };
        self.put_current(e);
        proof {
            assert(self.files@ =~= old(self).files@.update(self.next_file as int, e));
            assert(self.files@.take(self.next_file as int) =~= old(self).files@.take(self.next_file as int));
        }
        if aborted {
            self.status = DBJobStatus::Aborted;
            self.files_ended = true;
            self.dirs_left = self.dirs.len();
        } else {
            self.count_file();
        }
    }

    /// The next step with the directories, last first: one that had ended
    /// before is passed, one still to do is handed out.
    pub fn dir_step(&mut self) -> (r: DirStep)
        requires
            old(self).wf(),
            old(self).files_ended,
        ensures
            final(self).wf(),
            final(self).files_ended,
            final(self).files@ == old(self).files@,
            final(self).dirs@ == old(self).dirs@,
            final(self).status == old(self).status,
            final(self).dirs_ended == (old(self).dirs_ended || old(self).dirs_left == 0),
            if old(self).dirs_ended || old(self).dirs_left == 0 {
                r == DirStep::NoMoreDirs && final(self).dirs_left == old(self).dirs_left
            } else if !has_ended(old(self).dirs@[old(self).dirs_left - 1].status) {
                r == DirStep::Process((old(self).dirs_left - 1) as usize) && final(self).dirs_left == old(
                    self,
                ).dirs_left
            } else {
                r == DirStep::Passed && final(self).dirs_left == old(self).dirs_left - 1
            },
    {
        if self.dirs_ended || self.dirs_left == 0 {
            self.dirs_ended = true;
            return DirStep::NoMoreDirs;
        }
        let i = self.dirs_left - 1;
        if needs_processing(self.dirs[i].status) {
            DirStep::Process(i)
        } else {
            self.dirs_left = i;
            DirStep::Passed
        }
    }

    /// The directory being worked on ended as `outcome` says; an abort
    /// ends the directories.
    pub fn finish_dir(&mut self, outcome: FileOutcome)
        requires
            old(self).wf(),
            old(self).files_ended,
            !old(self).dirs_ended,
            old(self).dirs_left > 0,
        ensures
            final(self).wf(),
            final(self).files_ended,
            final(self).files@ == old(self).files@,
            final(self).dirs@.len() == old(self).dirs@.len(),
            forall|j: int| 0 <= j < final(self).dirs@.len() && j != old(self).dirs_left - 1 ==> #[trigger] final(self).dirs@[j] == old(self).dirs@[j],
            ({
                let i = old(self).dirs_left - 1;
                let a = old(self).dirs@[i];
                let b = final(self).dirs@[i];
                &&& b.id == a.id && b.job_id == a.job_id && b.file == a.file
                &&& b.cur_file == a.cur_file && b.cur_target == a.cur_target && b.new_dir == a.new_dir
                &&& match outcome {
                    FileOutcome::Ended(fs, js) => {
                        &&& b.status == fs
                        &&& b.message == a.message
                        &&& if js == DBJobStatus::Aborted {
                            &&& final(self).status == DBJobStatus::Aborted
                            &&& final(self).dirs_ended
                            &&& final(self).dirs_left == old(self).dirs_left
                        } else {
                            &&& final(self).status == old(self).status
                            &&& !final(self).dirs_ended
                            &&& final(self).dirs_left == old(self).dirs_left - 1
                        }
                    },
                    FileOutcome::Failed(context, cause) => {
                        &&& b.status == DBFileStatus::Error
                        &&& b.message@ == failure_message(context@, cause@)
                        &&& final(self).status == old(self).status
                        &&& !final(self).dirs_ended
                        &&& final(self).dirs_left == old(self).dirs_left - 1
                    },
                }
            }),
    {
        let i = self.dirs_left - 1;
        let mut d = self.dirs.remove(i);
        let aborted = match outcome {
            FileOutcome::Ended(fs, js) => {
                d.status = fs;
                js == DBJobStatus::Aborted
            },
            FileOutcome::Failed(context, cause) => {
                d.message = failure_text(context.as_str(), cause.as_str());
                d.status = DBFileStatus::Error;
                false
            },
        };
        self.dirs.insert(i, d);
        proof {
            assert(self.dirs@ =~= old(self).dirs@.update(i as int, d));
        }
        if aborted {
            self.status = DBJobStatus::Aborted;
            self.dirs_ended = true;
        } else {
            self.dirs_left = i;
        }
    }

    /// The job's outcome: done, unless it was aborted.
    pub fn finish(self) -> (r: CpMvResult)
        ensures
            r.files@ == self.files@,
            r.dirs@ == self.dirs@,
            r.status == if self.status == DBJobStatus::InProgress {
                DBJobStatus::Done
            } else {
                self.status
            },
    {
        let status = if self.status == DBJobStatus::InProgress {
            DBJobStatus::Done
        } else {
            self.status
        };
        CpMvResult { files: self.files, dirs: self.dirs, status }
    }
}

/// A copy of a file record, field by field.
pub fn copy_entry(e: &DBFileEntry) -> (r: DBFileEntry)
    ensures
        r == *e,
{
    DBFileEntry {
        id: e.id,
        job_id: e.job_id,
        file: e.file.clone(),
        is_file: e.is_file,
        is_dir: e.is_dir,
        is_symlink: e.is_symlink,
        size: e.size,
        uid: e.uid,
        gid: e.gid,
        status: e.status,
        message: e.message.clone(),
        target_is_dir: e.target_is_dir,
        target_is_symlink: e.target_is_symlink,
        cur_target: match &e.cur_target {
            Some(t) => Some(t.clone()),
            None => None,
        },
    }
}

} // verus!
