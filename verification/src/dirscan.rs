//! The directory scan that lists the files a copy, move or delete job works
//! on.  The scan is a state machine: its caller reads the directories it
//! names and hands over each entry found, and the scan decides what is
//! recorded, which directory is read next, and how a skipped or unreadable
//! directory shows in the list.

use vstd::prelude::*;
use crate::archive_mounter::{archive_parent_map, entries_view, parent_remap, remap, unarchive_path_map, ArchiveEntry};
use crate::database::{DBEntriesEntry, DBFileEntry, DBFileStatus};
use crate::strings::push_str;

verus! {

broadcast use vstd::string::group_string_axioms;

/// Whether a scan reads the metadata of the files it finds.
#[derive(Debug, Clone, Copy, PartialEq, Eq, Structural)]
pub enum ReadMetadata {
    Yes,
    No,
}

/// The progress of a directory scan, as shown to the user.
#[derive(Debug, Clone)]
pub struct DirScanInfo {
    pub current: String,
    pub num_files: usize,
    pub total_size: Option<u64>,
}

/// The type of a directory entry.
#[derive(Debug, Clone, Copy)]
pub struct EntryKind {
    pub is_file: bool,
    pub is_dir: bool,
    pub is_symlink: bool,
}

/// The metadata of a directory entry that the scan records.
#[derive(Debug, Clone, Copy)]
pub struct EntryMetadata {
    pub size: u64,
    pub uid: u32,
    pub gid: u32,
}

/// A directory being read, with the progress counts from when it was entered.
#[derive(Debug, Clone)]
pub struct ScanLevel {
    pub cwd: String,
    pub old_num_files: usize,
    pub old_total_size: Option<u64>,
}

/// `e` is a fresh record of a file of a job, with the given fields.
pub open spec fn is_record(
    e: DBFileEntry,
    file: Seq<char>,
    kind: (bool, bool, bool),
    meta: (u64, u32, u32),
    status: DBFileStatus,
    message: Seq<char>,
) -> bool {
    &&& e.id == 0
    &&& e.job_id == 0
    &&& e.file@ == file
    &&& e.is_file == kind.0
    &&& e.is_dir == kind.1
    &&& e.is_symlink == kind.2
    &&& e.size == meta.0
    &&& e.uid == meta.1
    &&& e.gid == meta.2
    &&& e.status == status
    &&& e.message@ == message
    &&& !e.target_is_dir
    &&& !e.target_is_symlink
    &&& e.cur_target is None
}

/// The record that stands for a skipped directory.
pub open spec fn is_skip_record(e: DBFileEntry, dir: Seq<char>) -> bool {
    is_record(e, dir, (false, true, false), (0, 0, 0), DBFileStatus::Skipped, Seq::empty())
}

/// The message of a file that could not be read.
pub open spec fn dirscan_message(error: Seq<char>) -> Seq<char> {
    "(dirscan) "@ + error
}

/// `b` is `a` marked as failed with `message`.
pub open spec fn marked_error(a: DBFileEntry, b: DBFileEntry, message: Seq<char>) -> bool {
    &&& b.id == a.id
    &&& b.job_id == a.job_id
    &&& b.file == a.file
    &&& b.is_file == a.is_file
    &&& b.is_dir == a.is_dir
    &&& b.is_symlink == a.is_symlink
    &&& b.size == a.size
    &&& b.uid == a.uid
    &&& b.gid == a.gid
    &&& b.status == DBFileStatus::Error
    &&& b.message@ == message
    &&& b.target_is_dir == a.target_is_dir
    &&& b.target_is_symlink == a.target_is_symlink
    &&& b.cur_target == a.cur_target
}

/// The records of a directory after the records of one of its
/// subdirectories are added: when the subdirectory's list ends with a
/// skipped record, the subdirectory's own record is dropped first.
pub open spec fn merged(parent: Seq<DBFileEntry>, sub: Seq<DBFileEntry>) -> Seq<DBFileEntry> {
    if sub.len() > 0 && sub.last().status == DBFileStatus::Skipped {
        parent.drop_last() + sub
    } else {
        parent + sub
    }
}

/// The records of `rs` with one record added at the end of the last list.
pub open spec fn appended(rs: Seq<Vec<DBFileEntry>>, after: Seq<Vec<DBFileEntry>>) -> bool {
    &&& after.len() == rs.len()
    &&& after.drop_last() == rs.drop_last()
    &&& after.last()@.len() == rs.last()@.len() + 1
    &&& after.last()@.drop_last() == rs.last()@
}

/// The total size after a file of `size` bytes is counted.
pub open spec fn added_size(total: Option<u64>, size: u64) -> Option<u64> {
    match total {
        Some(t) => Some((t + size) as u64),
        None => None,
    }
}

/// Adding `size` to the total size does not overflow.
pub open spec fn size_fits(total: Option<u64>, size: u64) -> bool {
    match total {
        Some(t) => t + size <= u64::MAX,
        None => true,
    }
}

/// The total size at the start of a scan.
pub open spec fn initial_size(read_metadata: ReadMetadata) -> Option<u64> {
    match read_metadata {
        ReadMetadata::Yes => Some(0),
        ReadMetadata::No => None,
    }
}

fn new_record(
    file: String,
    kind: EntryKind,
    meta: EntryMetadata,
    status: DBFileStatus,
    message: String,
) -> (r: DBFileEntry)
    ensures
        is_record(
            r,
            file@,
            (kind.is_file, kind.is_dir, kind.is_symlink),
            (meta.size, meta.uid, meta.gid),
            status,
            message@,
        ),
{
    DBFileEntry {
        id: 0,
        job_id: 0,
        file,
        is_file: kind.is_file,
        is_dir: kind.is_dir,
        is_symlink: kind.is_symlink,
        size: meta.size,
        uid: meta.uid,
        gid: meta.gid,
        status,
        message,
        target_is_dir: false,
        target_is_symlink: false,
        cur_target: None,
    }
}

fn skip_record(dir: &str) -> (r: DBFileEntry)
    ensures
        is_skip_record(r, dir@),
{
    new_record(
        dir.to_string(),
        EntryKind { is_file: false, is_dir: true, is_symlink: false },
        EntryMetadata { size: 0, uid: 0, gid: 0 },
        DBFileStatus::Skipped,
        String::new(),
    )
}

fn error_record(file: String, error: &str) -> (r: DBFileEntry)
    ensures
        is_record(r, file@, (false, false, false), (0, 0, 0), DBFileStatus::Error, dirscan_message(error@)),
{
    proof {
        reveal_strlit("(dirscan) ");
    }
    let mut message = "(dirscan) ".to_string();
    push_str(&mut message, error);
    new_record(
        file,
        EntryKind { is_file: false, is_dir: false, is_symlink: false },
        EntryMetadata { size: 0, uid: 0, gid: 0 },
        DBFileStatus::Error,
        message,
    )
}

/// Adds the records of `sub` to `parent` as `merged` says.
fn merge_records(parent: &mut Vec<DBFileEntry>, sub: Vec<DBFileEntry>)
    requires
        old(parent).len() > 0,
    ensures
        final(parent)@ == merged(old(parent)@, sub@),
{
    let mut sub = sub;
    let n = sub.len();
    if n > 0 && sub[n - 1].status == DBFileStatus::Skipped {
        parent.pop();
    }
    parent.append(&mut sub);
}

/// A directory scan in progress.
///
/// `results[0]` holds the records of the job's own entries, and
/// `results[i + 1]` those of the directory `levels[i]`; the last level is the
/// directory being read.
pub struct DirScan {
    pub info: DirScanInfo,
    pub read_metadata: ReadMetadata,
    pub archive_dirs: Vec<ArchiveEntry>,
    pub cwd: String,
    pub entries: Vec<DBEntriesEntry>,
    pub next: usize,
    pub results: Vec<Vec<DBFileEntry>>,
    pub levels: Vec<ScanLevel>,
    pub skipped: bool,
}

impl DirScan {
    /// The well-formedness of a scan: one list of records per open level and
    /// one for the job's entries, and a record for each open directory in
    /// the list of the level that contains it.
    pub open spec fn wf(&self) -> bool {
        &&& self.next <= self.entries.len()
        &&& self.results.len() == self.levels.len() + 1
        &&& forall|i: int| 0 <= i < self.levels.len() ==> #[trigger] self.results[i]@.len() > 0
        &&& self.skipped ==> self.levels.len() == 0
    }

    /// What stays the same in every step.
    pub open spec fn same_job(&self, other: &DirScan) -> bool {
        &&& other.read_metadata == self.read_metadata
        &&& other.archive_dirs@ == self.archive_dirs@
        &&& other.cwd@ == self.cwd@
        &&& other.entries@ == self.entries@
    }

    /// A scan of `entries`, selected in the directory `cwd`.
    pub fn new(
        cwd: &str,
        entries: Vec<DBEntriesEntry>,
        archive_dirs: Vec<ArchiveEntry>,
        read_metadata: ReadMetadata,
    ) -> (r: DirScan)
        ensures
            r.wf(),
            r.cwd@ == cwd@,
            r.entries@ == entries@,
            r.archive_dirs@ == archive_dirs@,
            r.read_metadata == read_metadata,
            r.info.current@ == cwd@,
            r.info.num_files == 0,
            r.info.total_size == initial_size(read_metadata),
            r.next == 0,
            r.results@.len() == 1,
            r.results@[0]@.len() == 0,
            r.levels@.len() == 0,
            !r.skipped,
    {
        let mut results: Vec<Vec<DBFileEntry>> = Vec::new();
        results.push(Vec::new());
        DirScan {
            info: DirScanInfo {
                current: cwd.to_string(),
                num_files: 0,
                total_size: match read_metadata {
                    ReadMetadata::Yes => Some(0),
                    ReadMetadata::No => None,
                },
            },
            read_metadata,
            archive_dirs,
            cwd: cwd.to_string(),
            entries,
            next: 0,
            results,
            levels: Vec::new(),
            skipped: false,
        }
    }

    /// How many directories are open.
    pub fn depth(&self) -> (r: usize)
        ensures
            r == self.levels.len(),
    {
        self.levels.len()
    }

    /// Whether the scan has ended: no directory is open, and every entry of
    /// the job was listed or the whole scan was skipped.
    pub fn is_done(&self) -> (r: bool)
        ensures
            r == (self.levels.len() == 0 && (self.skipped || self.next == self.entries.len())),
    {
        self.levels.len() == 0 && (self.skipped || self.next == self.entries.len())
    }

    /// The progress shown to the user.
    pub fn info(&self) -> (r: &DirScanInfo)
        ensures
            r == &self.info,
    {
        &self.info
    }

    /// The records of the job's own entries and of all they contain.
    pub fn into_result(self) -> (r: Vec<DBFileEntry>)
        requires
            self.wf(),
        ensures
            r@ == self.results@[0]@,
    {
        let mut results = self.results;
        results.swap_remove(0)
    }

    /// Adds `rec` to the list of the innermost level.
    fn push_record(&mut self, rec: DBFileEntry)
        requires
            old(self).wf(),
        ensures
            final(self).wf(),
            appended(old(self).results@, final(self).results@),
            final(self).results@.last()@.last() == rec,
            final(self).levels@ == old(self).levels@,
            final(self).same_job(&*old(self)),
            final(self).info == old(self).info,
            final(self).next == old(self).next,
            final(self).skipped == old(self).skipped,
    {
        let mut last = self.results.pop().unwrap();
        last.push(rec);
        self.results.push(last);
        proof {
            let rs = old(self).results@;
            assert(self.results@.drop_last() == rs.drop_last());
            assert(self.results@.last()@.drop_last() == rs.last()@);
            assert forall|i: int| 0 <= i < self.levels.len() implies #[trigger] self.results[i]@.len() > 0 by {
                assert(self.results@[i] == rs.drop_last()[i]);
            }
        }
    }

    /// Opens the directory `dir`: a new level, entered with the current
    /// counts.  Returns where the directory is read.
    fn open_level(&mut self, dir: String) -> (r: String)
        requires
            old(self).wf(),
            old(self).results@.last()@.len() > 0,
            !old(self).skipped,
        ensures
            final(self).wf(),
            r@ == remap(dir@, entries_view(old(self).archive_dirs@), false),
            final(self).results@.len() == old(self).results@.len() + 1,
            final(self).results@.drop_last() == old(self).results@,
            final(self).results@.last()@.len() == 0,
            final(self).levels@.drop_last() == old(self).levels@,
            final(self).levels@.len() == old(self).levels@.len() + 1,
            final(self).levels@.last().cwd@ == dir@,
            final(self).levels@.last().old_num_files == old(self).info.num_files,
            final(self).levels@.last().old_total_size == old(self).info.total_size,
            final(self).same_job(&*old(self)),
            final(self).info == old(self).info,
            final(self).next == old(self).next,
            !final(self).skipped,
    {
        let path = unarchive_path_map(dir.as_str(), self.archive_dirs.as_slice());
        self.levels.push(
            ScanLevel {
                cwd: dir,
                old_num_files: self.info.num_files,
                old_total_size: self.info.total_size,
            },
        );
        self.results.push(Vec::new());
        proof {
            let rs = old(self).results@;
            assert(self.results@.drop_last() == rs);
            assert forall|i: int| 0 <= i < self.levels.len() implies #[trigger] self.results[i]@.len() > 0 by {
                if i < rs.len() - 1 {
                    assert(self.results@[i] == rs[i]);
                } else {
                    assert(self.results@[i] == rs.last());
                }
            }
        }
        path
    }

    /// Lists the next entry of the job itself.  A directory is opened, and
    /// the place to read it is returned.
    pub fn next_entry(&mut self) -> (r: Option<String>)
        requires
            old(self).wf(),
            old(self).levels.len() == 0,
            !old(self).skipped,
            old(self).next < old(self).entries.len(),
            old(self).info.num_files < usize::MAX,
            old(self).read_metadata == ReadMetadata::Yes ==> size_fits(
                old(self).info.total_size,
                old(self).entries@[old(self).next as int].size,
            ),
        ensures
            final(self).wf(),
            final(self).same_job(&*old(self)),
            final(self).next == old(self).next + 1,
            !final(self).skipped,
            ({
                let e = old(self).entries@[old(self).next as int];
                let listed = final(self).results@[0]@;
                &&& final(self).info.current@ == old(self).cwd@
                &&& final(self).info.num_files == old(self).info.num_files + 1
                &&& final(self).info.total_size == (match old(self).read_metadata {
                    ReadMetadata::Yes => added_size(old(self).info.total_size, e.size),
                    ReadMetadata::No => None,
                })
                &&& listed.len() == old(self).results@[0]@.len() + 1
                &&& listed.drop_last() == old(self).results@[0]@
                &&& is_record(
                    listed.last(),
                    e.file@,
                    (e.is_file, e.is_dir, e.is_symlink),
                    (e.size, e.uid, e.gid),
                    DBFileStatus::ToDo,
                    Seq::empty(),
                )
                &&& if e.is_dir {
                    &&& r matches Some(p) && p@ == remap(e.file@, entries_view(old(self).archive_dirs@), false)
                    &&& final(self).results@.len() == 2
                    &&& final(self).results@[1]@.len() == 0
                    &&& final(self).levels@.len() == 1
                    &&& final(self).levels@[0].cwd@ == e.file@
                    &&& final(self).levels@[0].old_num_files == final(self).info.num_files
                    &&& final(self).levels@[0].old_total_size == final(self).info.total_size
                } else {
                    &&& r is None
                    &&& final(self).results@.len() == 1
                    &&& final(self).levels@.len() == 0
                }
            }),
    {
        let i = self.next;
        let file = self.entries[i].file.clone();
        let kind = EntryKind {
            is_file: self.entries[i].is_file,
            is_dir: self.entries[i].is_dir,
            is_symlink: self.entries[i].is_symlink,
        };
        let meta = EntryMetadata {
            size: self.entries[i].size,
            uid: self.entries[i].uid,
            gid: self.entries[i].gid,
        };
        self.next = i + 1;
        self.info.current = self.cwd.clone();
        self.info.num_files = self.info.num_files + 1;
        self.info.total_size = match self.read_metadata {
            ReadMetadata::Yes => match self.info.total_size {
                Some(t) => Some(t + meta.size),
                None => None,
            },
            ReadMetadata::No => None,
        };
        let rec = new_record(file.clone(), kind, meta, DBFileStatus::ToDo, String::new());
        self.push_record(rec);
        if kind.is_dir {
            Some(self.open_level(file))
        } else {
            None
        }
    }

    /// Lists an entry found at `path` in the directory being read.  `kind`
    /// is its type, or why it could not be read; `metadata` is absent when
    /// the scan does not read metadata.  A directory is opened, and the place
    /// to read it is returned.
    pub fn scan_entry(
        &mut self,
        path: &str,
        kind: Result<EntryKind, String>,
        metadata: Option<Result<EntryMetadata, String>>,
    ) -> (r: Option<String>)
        requires
            old(self).wf(),
            old(self).levels.len() > 0,
            old(self).info.num_files < usize::MAX,
            kind is Ok ==> ((metadata is Some) == (old(self).read_metadata == ReadMetadata::Yes)),
            (match (kind, metadata) {
                (Ok(_), Some(Ok(m))) => size_fits(old(self).info.total_size, m.size),
                _ => true,
            }),
        ensures
            final(self).wf(),
            final(self).same_job(&*old(self)),
            final(self).next == old(self).next,
            final(self).skipped == old(self).skipped,
            final(self).info.num_files == old(self).info.num_files + 1,
            ({
                let file = parent_remap(path@, entries_view(old(self).archive_dirs@), true);
                let level = old(self).levels@.last();
                match (kind, metadata) {
                    (Ok(_), Some(Err(e))) | (Err(e), _) => {
                        &&& r is None
                        &&& final(self).levels@ == old(self).levels@
                        &&& appended(old(self).results@, final(self).results@)
                        &&& is_record(
                            final(self).results@.last()@.last(),
                            file,
                            (false, false, false),
                            (0, 0, 0),
                            DBFileStatus::Error,
                            dirscan_message(e@),
                        )
                        &&& final(self).info.current == old(self).info.current
                        &&& final(self).info.total_size == old(self).info.total_size
                    },
                    (Ok(k), m) => {
                        let meta = match m {
                            Some(Ok(x)) => (x.size, x.uid, x.gid),
                            _ => (0u64, 0u32, 0u32),
                        };
                        let listed = if k.is_dir {
                            final(self).results@.drop_last()
                        } else {
                            final(self).results@
                        };
                        &&& final(self).info.current@ == level.cwd@
                        &&& final(self).info.total_size == (match m {
                            Some(Ok(x)) => added_size(old(self).info.total_size, x.size),
                            _ => None,
                        })
                        &&& appended(old(self).results@, listed)
                        &&& is_record(
                            listed.last()@.last(),
                            file,
                            (k.is_file, k.is_dir, k.is_symlink),
                            meta,
                            DBFileStatus::ToDo,
                            Seq::empty(),
                        )
                        &&& if k.is_dir {
                            &&& r matches Some(p) && p@ == remap(file, entries_view(old(self).archive_dirs@), false)
                            &&& final(self).results@.last()@.len() == 0
                            &&& final(self).levels@.drop_last() == old(self).levels@
                            &&& final(self).levels@.len() == old(self).levels@.len() + 1
                            &&& final(self).levels@.last().cwd@ == file
                            &&& final(self).levels@.last().old_num_files == final(self).info.num_files
                            &&& final(self).levels@.last().old_total_size == final(self).info.total_size
                        } else {
                            &&& r is None
                            &&& final(self).levels@ == old(self).levels@
                        }
                    },
                }
            }),
    {
        let file = archive_parent_map(path, self.archive_dirs.as_slice());
        match kind {
            Err(e) => {
                let rec = error_record(file, e.as_str());
                self.info.num_files = self.info.num_files + 1;
                self.push_record(rec);
                None
            },
            Ok(k) => {
                let meta = match metadata {
                    Some(Err(e)) => {
                        let rec = error_record(file, e.as_str());
                        self.info.num_files = self.info.num_files + 1;
                        self.push_record(rec);
                        return None;
                    },
                    Some(Ok(m)) => Some(m),
                    None => None,
                };
                let n = self.levels.len();
                self.info.current = self.levels[n - 1].cwd.clone();
                self.info.num_files = self.info.num_files + 1;
                self.info.total_size = match meta {
                    Some(m) => match self.info.total_size {
                        Some(t) => Some(t + m.size),
                        None => None,
                    },
                    None => None,
                };
                let recorded = match meta {
                    Some(m) => m,
                    None => EntryMetadata { size: 0, uid: 0, gid: 0 },
                };
                let rec = new_record(file.clone(), k, recorded, DBFileStatus::ToDo, String::new());
                self.push_record(rec);
                if k.is_dir {
                    Some(self.open_level(file))
                } else {
                    None
                }
            },
        }
    }

    /// Closes the innermost level, whose directory was read to its end: its
    /// records join those of the level that contains it.
    pub fn dir_done(&mut self)
        requires
            old(self).wf(),
            old(self).levels.len() > 0,
        ensures
            final(self).wf(),
            final(self).same_job(&*old(self)),
            final(self).levels@ == old(self).levels@.drop_last(),
            final(self).results@.len() == old(self).results@.len() - 1,
            final(self).results@.drop_last() == old(self).results@.drop_last().drop_last(),
            final(self).results@.last()@ == merged(
                old(self).results@[old(self).results@.len() - 2]@,
                old(self).results@.last()@,
            ),
            final(self).info == old(self).info,
            final(self).next == old(self).next,
            final(self).skipped == old(self).skipped,
    {
        let sub = self.results.pop().unwrap();
        self.levels.pop();
        let mut parent = self.results.pop().unwrap();
        merge_records(&mut parent, sub);
        self.results.push(parent);
        proof {
            let rs = old(self).results@;
            assert(self.results@.drop_last() == rs.drop_last().drop_last());
            assert forall|i: int| 0 <= i < self.levels.len() implies #[trigger] self.results[i]@.len() > 0 by {
                assert(self.results@[i] == rs[i]);
            }
        }
    }

    /// The innermost level's directory could not be read: the level is
    /// closed, and the directory's record is marked as failed.  Directly
    /// under the job's own entries the message is prefixed as for any
    /// unreadable file; deeper, it is the error alone.
    pub fn dir_failed(&mut self, error: &str)
        requires
            old(self).wf(),
            old(self).levels.len() > 0,
            old(self).results@.last()@.len() == 0,
        ensures
            final(self).wf(),
            final(self).same_job(&*old(self)),
            final(self).levels@ == old(self).levels@.drop_last(),
            final(self).results@.len() == old(self).results@.len() - 1,
            final(self).results@.drop_last() == old(self).results@.drop_last().drop_last(),
            ({
                let parent = old(self).results@[old(self).results@.len() - 2]@;
                let now = final(self).results@.last()@;
                &&& now.len() == parent.len()
                &&& now.drop_last() == parent.drop_last()
                &&& marked_error(
                    parent.last(),
                    now.last(),
                    if old(self).levels.len() == 1 {
                        dirscan_message(error@)
                    } else {
                        error@
                    },
                )
            }),
            final(self).info == old(self).info,
            final(self).next == old(self).next,
            final(self).skipped == old(self).skipped,
    {
        proof {
            reveal_strlit("(dirscan) ");
        }
        let top = self.levels.len() == 1;
        self.results.pop();
        self.levels.pop();
        let mut parent = self.results.pop().unwrap();
        let mut rec = parent.pop().unwrap();
        let mut message = if top {
            "(dirscan) ".to_string()
        } else {
            String::new()
        };
        push_str(&mut message, error);
        rec.message = message;
        rec.status = DBFileStatus::Error;
        parent.push(rec);
        self.results.push(parent);
        proof {
            let rs = old(self).results@;
            assert(self.results@.drop_last() == rs.drop_last().drop_last());
            assert forall|i: int| 0 <= i < self.levels.len() implies #[trigger] self.results[i]@.len() > 0 by {
                assert(self.results@[i] == rs[i]);
            }
        }
    }

    /// The user skips what is being scanned.  Inside a directory, that
    /// directory's records are replaced by one skipped record, the counts
    /// return to what they were when it was entered, and it is closed.  At
    /// the job's own entries, the whole scan is replaced by one skipped
    /// record for the job's directory, and it ends.
    pub fn skip(&mut self)
        requires
            old(self).wf(),
            !old(self).skipped,
            old(self).levels.len() > 0 || old(self).next < old(self).entries.len(),
        ensures
            final(self).wf(),
            final(self).same_job(&*old(self)),
            final(self).next == old(self).next,
            final(self).info.current == old(self).info.current,
            if old(self).levels.len() > 0 {
                let level = old(self).levels@.last();
                let parent = old(self).results@[old(self).results@.len() - 2]@;
                let now = final(self).results@.last()@;
                &&& final(self).levels@ == old(self).levels@.drop_last()
                &&& final(self).info.num_files == level.old_num_files
                &&& final(self).info.total_size == level.old_total_size
                &&& final(self).results@.len() == old(self).results@.len() - 1
                &&& final(self).results@.drop_last() == old(self).results@.drop_last().drop_last()
                &&& now.len() == parent.len()
                &&& now.drop_last() == parent.drop_last()
                &&& is_skip_record(now.last(), level.cwd@)
                &&& !final(self).skipped
            } else {
                &&& final(self).levels@.len() == 0
                &&& final(self).results@.len() == 1
                &&& final(self).results@[0]@.len() == 1
                &&& is_skip_record(final(self).results@[0]@[0], old(self).cwd@)
                &&& final(self).info.num_files == 1
                &&& final(self).info.total_size == initial_size(old(self).read_metadata)
                &&& final(self).skipped
            },
    {
        let n = self.levels.len();
        if n > 0 {
            let level = self.levels.pop().unwrap();
            self.results.pop();
            let mut parent = self.results.pop().unwrap();
            parent.pop();
            parent.push(skip_record(level.cwd.as_str()));
            self.results.push(parent);
            self.info.num_files = level.old_num_files;
            self.info.total_size = level.old_total_size;
            proof {
                let rs = old(self).results@;
                assert(self.results@.drop_last() == rs.drop_last().drop_last());
                assert forall|i: int| 0 <= i < self.levels.len() implies #[trigger] self.results[i]@.len() > 0 by {
                    assert(self.results@[i] == rs[i]);
                }
            }
        } else {
            let mut listed: Vec<DBFileEntry> = Vec::new();
            listed.push(skip_record(self.cwd.as_str()));
            let mut results: Vec<Vec<DBFileEntry>> = Vec::new();
            results.push(listed);
            self.results = results;
            self.info.num_files = 1;
            self.info.total_size = match self.read_metadata {
                ReadMetadata::Yes => Some(0),
                ReadMetadata::No => None,
            };
            self.skipped = true;
        }
    }
}

} // verus!
