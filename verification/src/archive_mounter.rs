//! Bookkeeping of the archives mounted in temporary directories: the mapping
//! between paths inside an archive and paths inside its mount point, and the
//! choice of which archives to unmount.  Spawning the mount helper and running
//! `umount` is left to the caller, which is handed the work to do.

use vstd::prelude::*;
use crate::paths::{
    path_clean, path_equal, path_file_name, path_join, path_parent, path_starts_with,
    path_strip_prefix,
};

verus! {

broadcast use vstd::string::group_string_axioms;

/// An archive file and the temporary directory where it is mounted.
#[derive(Debug, Clone)]
pub struct ArchiveEntry {
    pub archive_file: String,
    pub temp_dir: String,
}

impl View for ArchiveEntry {
    type V = (Seq<char>, Seq<char>);

    open spec fn view(&self) -> (Seq<char>, Seq<char>) {
        (self.archive_file@, self.temp_dir@)
    }
}

impl ArchiveEntry {
    pub fn new(archive_file: &str, temp_dir: &str) -> (r: ArchiveEntry)
        ensures
            r@ == (archive_file@, temp_dir@),
    {
        ArchiveEntry {
            archive_file: archive_file.to_string(),
            temp_dir: temp_dir.to_string(),
        }
    }

    /// A copy of the entry.
    pub fn duplicate(&self) -> (r: ArchiveEntry)
        ensures
            r@ == self@,
    {
        ArchiveEntry::new(self.archive_file.as_str(), self.temp_dir.as_str())
    }
}

/// The mounted archives, in mount order: (archive file, mount directory).
pub type Mounts = Seq<(Seq<char>, Seq<char>)>;

pub open spec fn entries_view(s: Seq<ArchiveEntry>) -> Mounts {
    s.map_values(|e: ArchiveEntry| e@)
}

/// The side of an entry that a path is matched against: the archive file when
/// mapping into mount points, the mount directory when mapping back.
pub open spec fn key_of(e: (Seq<char>, Seq<char>), from_temp: bool) -> Seq<char> {
    if from_temp { e.1 } else { e.0 }
}

/// The side of an entry that a matched path is moved under.
pub open spec fn target_of(e: (Seq<char>, Seq<char>), from_temp: bool) -> Seq<char> {
    if from_temp { e.0 } else { e.1 }
}

/// The last (most recently mounted) entry whose key is a prefix of `file`.
pub open spec fn last_prefix(file: Seq<char>, dirs: Mounts, from_temp: bool) -> Option<int>
    decreases dirs.len(),
{
    if dirs.len() == 0 {
        None
    } else if path_starts_with(file, key_of(dirs.last(), from_temp)) {
        Some(dirs.len() - 1)
    } else {
        last_prefix(file, dirs.drop_last(), from_temp)
    }
}

/// `file` moved from under the key of the last matching entry to under its
/// target, then cleaned.
pub open spec fn remap(file: Seq<char>, dirs: Mounts, from_temp: bool) -> Seq<char> {
    path_clean(
        match last_prefix(file, dirs, from_temp) {
            Some(i) => path_join(
                target_of(dirs[i], from_temp),
                path_strip_prefix(file, key_of(dirs[i], from_temp)),
            ),
            None => file,
        },
    )
}

/// `remap` applied to the parent of `file`, keeping its file name.
pub open spec fn parent_remap(file: Seq<char>, dirs: Mounts, from_temp: bool) -> Seq<char> {
    match (path_parent(file), path_file_name(file)) {
        (Some(parent), Some(name)) => path_join(remap(parent, dirs, from_temp), name),
        _ => file,
    }
}

proof fn lemma_last_prefix_bound(file: Seq<char>, dirs: Mounts, from_temp: bool)
    ensures
        last_prefix(file, dirs, from_temp) matches Some(i) ==> 0 <= i < dirs.len()
            && path_starts_with(file, key_of(dirs[i], from_temp)),
    decreases dirs.len(),
{
    if dirs.len() > 0 {
        lemma_last_prefix_bound(file, dirs.drop_last(), from_temp);
    }
}

fn key(e: &ArchiveEntry, from_temp: bool) -> (r: &String)
    ensures
        r@ == key_of(e@, from_temp),
{
    if from_temp { &e.temp_dir } else { &e.archive_file }
}

fn target(e: &ArchiveEntry, from_temp: bool) -> (r: &String)
    ensures
        r@ == target_of(e@, from_temp),
{
    if from_temp { &e.archive_file } else { &e.temp_dir }
}

fn remap_exec(file: &str, archive_dirs: &[ArchiveEntry], from_temp: bool) -> (r: String)
    ensures
        r@ == remap(file@, entries_view(archive_dirs@), from_temp),
{
    let ghost dirs = entries_view(archive_dirs@);
    let mut i = archive_dirs.len();
    assert(dirs.take(i as int) =~= dirs);
    let mut found: Option<usize> = None;
    while i > 0 && found.is_none()
        invariant
            i <= archive_dirs@.len(),
            dirs == entries_view(archive_dirs@),
            found is None ==> last_prefix(file@, dirs, from_temp) == last_prefix(
                file@,
                dirs.take(i as int),
                from_temp,
            ),
            found matches Some(j) ==> j < archive_dirs@.len() && last_prefix(file@, dirs, from_temp)
                == Some(j as int),
        decreases i,
    {
        let j = i - 1;
        proof {
            assert(dirs.take(i as int).drop_last() =~= dirs.take(j as int));
            assert(dirs.take(i as int).last() == dirs[j as int]);
        }
        if crate::paths::starts_with(file, key(&archive_dirs[j], from_temp).as_str()) {
            found = Some(j);
        }
        i = j;
    }
    proof {
        lemma_last_prefix_bound(file@, dirs, from_temp);
    }
    let mapped = match found {
        Some(j) => {
            let e = &archive_dirs[j];
            let rest = crate::paths::strip_prefix(file, key(e, from_temp).as_str());
            match rest {
                Some(rest) => crate::paths::join(target(e, from_temp).as_str(), rest.as_str()),
                None => file.to_string(),
            }
        },
        None => {
            assert(dirs.take(0) =~= Seq::<(Seq<char>, Seq<char>)>::empty());
            file.to_string()
        },
    };
    crate::paths::clean(mapped.as_str())
}

/// Maps a path as the user sees it (inside an archive file) to the path where
/// it can be reached (inside the archive's mount point), using the most
/// recently mounted archive that contains it.
pub fn unarchive_path_map(file: &str, archive_dirs: &[ArchiveEntry]) -> (r: String)
    ensures
        r@ == remap(file@, entries_view(archive_dirs@), false),
{
    remap_exec(file, archive_dirs, false)
}

/// Maps a path inside a mount point back to the path inside the archive file.
pub fn archive_path_map(file: &str, archive_dirs: &[ArchiveEntry]) -> (r: String)
    ensures
        r@ == remap(file@, entries_view(archive_dirs@), true),
{
    remap_exec(file, archive_dirs, true)
}

fn parent_remap_exec(file: &str, archive_dirs: &[ArchiveEntry], from_temp: bool) -> (r: String)
    ensures
        r@ == parent_remap(file@, entries_view(archive_dirs@), from_temp),
{
    match (crate::paths::parent(file), crate::paths::file_name(file)) {
        (Some(parent), Some(name)) => {
            let mapped = remap_exec(parent.as_str(), archive_dirs, from_temp);
            crate::paths::join(mapped.as_str(), name.as_str())
        },
        _ => file.to_string(),
    }
}

/// `unarchive_path_map` applied to the parent directory of `file` only, so
/// that the file itself (which may be an archive) is not mapped.
pub fn unarchive_parent_map(file: &str, archive_dirs: &[ArchiveEntry]) -> (r: String)
    ensures
        r@ == parent_remap(file@, entries_view(archive_dirs@), false),
{
    parent_remap_exec(file, archive_dirs, false)
}

/// `archive_path_map` applied to the parent directory of `file` only.
pub fn archive_parent_map(file: &str, archive_dirs: &[ArchiveEntry]) -> (r: String)
    ensures
        r@ == parent_remap(file@, entries_view(archive_dirs@), true),
{
    parent_remap_exec(file, archive_dirs, true)
}

/// What the caller must do to unmount one archive: run `umount` on the mount
/// directory from `cwd` (the archive's directory, as reachable) and remove
/// the directory.  `cwd` is absent when the archive path has no parent.
#[derive(Debug, Clone)]
pub struct UmountAction {
    pub temp_dir: String,
    pub cwd: Option<String>,
}

impl View for UmountAction {
    type V = (Seq<char>, Option<Seq<char>>);

    open spec fn view(&self) -> (Seq<char>, Option<Seq<char>>) {
        (
            self.temp_dir@,
            match self.cwd {
                Some(c) => Some(c@),
                None => None,
            },
        )
    }
}

pub open spec fn actions_view(s: Seq<UmountAction>) -> Seq<(Seq<char>, Option<Seq<char>>)> {
    s.map_values(|a: UmountAction| a@)
}

pub open spec fn names_view(s: Seq<String>) -> Seq<Seq<char>> {
    s.map_values(|a: String| a@)
}

/// The first entry, from index `k` on, whose archive file equals `archive`.
pub open spec fn first_equal(dirs: Mounts, archive: Seq<char>, k: nat) -> Option<int>
    decreases dirs.len() - k,
{
    if k >= dirs.len() {
        None
    } else if path_equal(dirs[k as int].0, archive) {
        Some(k as int)
    } else {
        first_equal(dirs, archive, k + 1)
    }
}

proof fn lemma_first_equal_bound(dirs: Mounts, archive: Seq<char>, k: nat)
    ensures
        first_equal(dirs, archive, k) matches Some(i) ==> k <= i < dirs.len()
            && path_equal(dirs[i].0, archive),
    decreases dirs.len() - k,
{
    if k < dirs.len() {
        lemma_first_equal_bound(dirs, archive, k + 1);
    }
}

/// Unmounting one archive: the first entry with that archive file is dropped,
/// and its mount directory is to be unmounted from the archive's directory.
pub open spec fn umount_one(dirs: Mounts, archive: Seq<char>) -> (
    Mounts,
    Option<(Seq<char>, Option<Seq<char>>)>,
) {
    match first_equal(dirs, archive, 0) {
        Some(i) => (
            dirs.remove(i),
            Some(
                (
                    dirs[i].1,
                    match path_parent(archive) {
                        Some(p) => Some(remap(p, dirs, false)),
                        None => None,
                    },
                ),
            ),
        ),
        None => (dirs, None),
    }
}

/// Unmounting a list of archives, one after the other.
pub open spec fn umount_list(dirs: Mounts, archives: Seq<Seq<char>>) -> (
    Mounts,
    Seq<(Seq<char>, Option<Seq<char>>)>,
)
    decreases archives.len(),
{
    if archives.len() == 0 {
        (dirs, Seq::empty())
    } else {
        let (d1, a1) = umount_list(dirs, archives.drop_last());
        let (d2, o) = umount_one(d1, archives.last());
        (
            d2,
            match o {
                Some(x) => a1.push(x),
                None => a1,
            },
        )
    }
}

/// The archive files of the entries that satisfy `pred`, most recent first.
pub open spec fn rev_filter(dirs: Mounts, pred: spec_fn(Seq<char>) -> bool) -> Seq<Seq<char>>
    decreases dirs.len(),
{
    if dirs.len() == 0 {
        Seq::empty()
    } else {
        let rest = rev_filter(dirs.drop_last(), pred);
        if pred(dirs.last().0) {
            seq![dirs.last().0] + rest
        } else {
            rest
        }
    }
}

/// The archives mounted under `base` (nested archives included).
pub open spec fn under(dirs: Mounts, base: Seq<char>) -> Seq<Seq<char>> {
    rev_filter(dirs, |a: Seq<char>| path_starts_with(a, base))
}

/// Unmounting, for each parent in turn, every archive mounted under it.
pub open spec fn umount_parents_spec(dirs: Mounts, parents: Seq<Seq<char>>) -> (
    Mounts,
    Seq<(Seq<char>, Option<Seq<char>>)>,
)
    decreases parents.len(),
{
    if parents.len() == 0 {
        (dirs, Seq::empty())
    } else {
        let (d1, a1) = umount_parents_spec(dirs, parents.drop_last());
        let archive_file = remap(parents.last(), d1, true);
        let (d2, a2) = umount_list(d1, under(d1, archive_file));
        (d2, a1 + a2)
    }
}

/// Some directory in `targets` lies inside the archive `a`.
pub open spec fn is_related(targets: Seq<Seq<char>>, a: Seq<char>) -> bool {
    exists|j: int| 0 <= j < targets.len() && path_starts_with(#[trigger] targets[j], a)
}

/// The archive files to keep: those of entries related to `targets`, in order.
pub open spec fn keep_list(dirs: Mounts, targets: Seq<Seq<char>>) -> Seq<Seq<char>>
    decreases dirs.len(),
{
    if dirs.len() == 0 {
        Seq::empty()
    } else {
        let rest = keep_list(dirs.drop_last(), targets);
        if is_related(targets, dirs.last().0) {
            rest.push(dirs.last().0)
        } else {
            rest
        }
    }
}

/// `a` equals (as a path) one of `keep`.
pub open spec fn is_kept(keep: Seq<Seq<char>>, a: Seq<char>) -> bool {
    exists|j: int| 0 <= j < keep.len() && path_equal(#[trigger] keep[j], a)
}

/// Unmounting every archive unrelated to the directories `dirs_shown`.
pub open spec fn umount_unrelated_spec(dirs: Mounts, dirs_shown: Seq<Seq<char>>) -> (
    Mounts,
    Seq<(Seq<char>, Option<Seq<char>>)>,
) {
    let targets = dirs_shown.map_values(|p: Seq<char>| remap(p, dirs, true));
    let keep = keep_list(dirs, targets);
    umount_list(dirs, rev_filter(dirs, |a: Seq<char>| !is_kept(keep, a)))
}

/// Unmounting every archive, most recent first.
pub open spec fn umount_all_spec(dirs: Mounts) -> (Mounts, Seq<(Seq<char>, Option<Seq<char>>)>) {
    umount_list(dirs, rev_filter(dirs, |a: Seq<char>| true))
}

/// The archive mounter: the mount helper's executable and the mounted
/// archives, in mount order.
#[derive(Debug, Clone)]
pub struct ArchiveMounter {
    executable: String,
    archive_dirs: Vec<ArchiveEntry>,
}

impl View for ArchiveMounter {
    type V = Mounts;

    closed spec fn view(&self) -> Mounts {
        entries_view(self.archive_dirs@)
    }
}

impl ArchiveMounter {
    /// The path of the mount helper's executable.
    pub closed spec fn executable_path(&self) -> Seq<char> {
        self.executable@
    }

    /// A mounter with no archive mounted, using `archivefs` when it was found,
    /// else `archivemount`; none when neither was found.
    pub fn new(archivefs: Option<String>, archivemount: Option<String>) -> (r: Option<
        ArchiveMounter,
    >)
        ensures
            r is Some <==> (archivefs is Some || archivemount is Some),
            r matches Some(m) ==> m@ == Mounts::empty() && m.executable_path() == (
            match archivefs {
                Some(e) => e@,
                None => archivemount.unwrap()@,
            }),
    {
        let executable = match archivefs {
            Some(e) => Some(e),
            None => archivemount,
        };
        match executable {
            Some(executable) => {
                let m = ArchiveMounter { executable, archive_dirs: Vec::new() };
                assert(m@ =~= Mounts::empty());
                Some(m)
            },
            None => None,
        }
    }

    /// The path of the mount helper's executable.
    pub fn executable(&self) -> (r: String)
        ensures
            r@ == self.executable_path(),
    {
        self.executable.clone()
    }

    /// The file name of the mount helper.
    pub fn get_exe_name(&self) -> (r: String)
        requires
            path_file_name(self.executable_path()) is Some,
        ensures
            Some(r@) == path_file_name(self.executable_path()),
    {
        match crate::paths::file_name(self.executable.as_str()) {
            Some(n) => n,
            None => String::new(),
        }
    }

    /// The file name of the mount helper, when its path has one.
    pub fn exe_name(&self) -> (r: Option<String>)
        ensures
            r is Some <==> path_file_name(self.executable_path()) is Some,
            r matches Some(n) ==> Some(n@) == path_file_name(self.executable_path()),
    {
        match crate::paths::file_name(self.executable.as_str()) {
            Some(_) => Some(self.get_exe_name()),
            None => None,
        }
    }

    pub fn unarchive_path(&self, file: &str) -> (r: String)
        ensures
            r@ == remap(file@, self@, false),
    {
        unarchive_path_map(file, self.archive_dirs.as_slice())
    }

    pub fn archive_path(&self, file: &str) -> (r: String)
        ensures
            r@ == remap(file@, self@, true),
    {
        archive_path_map(file, self.archive_dirs.as_slice())
    }

    pub fn get_archive_dirs(&self) -> (r: Vec<ArchiveEntry>)
        ensures
            entries_view(r@) == self@,
    {
        let mut r: Vec<ArchiveEntry> = Vec::new();
        let mut i: usize = 0;
        while i < self.archive_dirs.len()
            invariant
                i <= self.archive_dirs@.len(),
                entries_view(r@) =~= entries_view(self.archive_dirs@).take(i as int),
            decreases self.archive_dirs.len() - i,
        {
            let e = self.archive_dirs[i].duplicate();
            let ghost before = r@;
            r.push(e);
            assert(entries_view(r@) =~= entries_view(before).push(e@));
            assert(entries_view(self.archive_dirs@).take(i + 1) =~= entries_view(
                self.archive_dirs@,
            ).take(i as int).push(self.archive_dirs@[i as int]@));
            i += 1;
        }
        assert(entries_view(self.archive_dirs@).take(i as int) =~= self@);
        r
    }

    /// The mount directory of `archive` when it is already mounted.
    pub fn mounted_dir(&self, archive: &str) -> (r: Option<String>)
        ensures
            match first_equal(self@, archive@, 0) {
                Some(i) => r matches Some(d) && d@ == self@[i].1,
                None => r is None,
            },
    {
        match self.find_archive(archive) {
            Some(i) => {
                assert(self@[i as int] == self.archive_dirs@[i as int]@);
                Some(self.archive_dirs[i].temp_dir.clone())
            },
            None => None,
        }
    }

    /// The directory from which the mount helper is run for `archive`: the
    /// archive's directory, as reachable.
    pub fn mount_cwd(&self, archive: &str) -> (r: Option<String>)
        ensures
            match path_parent(archive@) {
                Some(p) => r matches Some(c) && c@ == remap(p, self@, false),
                None => r is None,
            },
    {
        match crate::paths::parent(archive) {
            Some(p) => Some(self.unarchive_path(p.as_str())),
            None => None,
        }
    }

    /// Records that `archive` is now mounted on `temp_dir`.
    pub fn add_archive(&mut self, archive: &str, temp_dir: &str)
        ensures
            final(self)@ == old(self)@.push((archive@, temp_dir@)),
            final(self).executable_path() == old(self).executable_path(),
    {
        self.archive_dirs.push(ArchiveEntry::new(archive, temp_dir));
        assert(self@ =~= old(self)@.push((archive@, temp_dir@)));
    }

    fn find_archive(&self, archive: &str) -> (r: Option<usize>)
        ensures
            match first_equal(self@, archive@, 0) {
                Some(i) => r matches Some(j) && j as int == i,
                None => r is None,
            },
            r matches Some(i) ==> i < self.archive_dirs@.len() && i < self@.len(),
    {
        proof {
            lemma_first_equal_bound(self@, archive@, 0);
        }
        let ghost dirs = self@;
        let mut i: usize = 0;
        while i < self.archive_dirs.len()
            invariant
                i <= self.archive_dirs@.len(),
                dirs == entries_view(self.archive_dirs@),
                first_equal(dirs, archive@, 0) == first_equal(dirs, archive@, i as nat),
            decreases self.archive_dirs.len() - i,
        {
            if crate::paths::equal(self.archive_dirs[i].archive_file.as_str(), archive) {
                return Some(i);
            }
            i += 1;
        }
        None
    }

    /// Forgets `archive`, returning the unmount work to do when it was mounted.
    pub fn umount_archive(&mut self, archive: &str) -> (r: Option<UmountAction>)
        ensures
            umount_one(old(self)@, archive@) == (
            final(self)@,
            match r {
                Some(a) => Some(a@),
                None => None,
            }),
            final(self).executable_path() == old(self).executable_path(),
    {
        match self.find_archive(archive) {
            Some(i) => {
                let cwd = self.mount_cwd(archive);
                let ghost old_dirs = self.archive_dirs@;
                assert(entries_view(old_dirs)[i as int] == old_dirs[i as int]@);
                let entry = self.archive_dirs.remove(i);
                assert(self@ =~= entries_view(old_dirs).remove(i as int));
                let action = UmountAction { temp_dir: entry.temp_dir, cwd };
                assert(action@.1 == match path_parent(archive@) {
                    Some(p) => Some(remap(p, entries_view(old_dirs), false)),
                    None => None,
                });
                Some(action)
            },
            None => None,
        }
    }

    fn umount_list_exec(&mut self, archives: &Vec<String>, actions: &mut Vec<UmountAction>)
        ensures
            umount_list(old(self)@, names_view(archives@)) == (
            final(self)@,
            actions_view(final(actions)@).skip(old(actions)@.len() as int)),
            actions_view(final(actions)@).take(old(actions)@.len() as int) == actions_view(
                old(actions)@,
            ),
            final(actions)@.len() >= old(actions)@.len(),
            final(self).executable_path() == old(self).executable_path(),
    {
        let ghost names = names_view(archives@);
        let ghost start = old(actions)@.len() as int;
        let mut i: usize = 0;
        assert(names.take(0) =~= Seq::<Seq<char>>::empty());
        assert(actions_view(actions@).skip(start) =~= Seq::<(Seq<char>, Option<Seq<char>>)>::empty());
        while i < archives.len()
            invariant
                i <= archives@.len(),
                names == names_view(archives@),
                start == old(actions)@.len(),
                start <= actions@.len(),
                umount_list(old(self)@, names.take(i as int)) == (
                self@,
                actions_view(actions@).skip(start)),
                actions_view(actions@).take(start) == actions_view(old(actions)@),
                self.executable_path() == old(self).executable_path(),
            decreases archives.len() - i,
        {
            proof {
                assert(names.take(i + 1).drop_last() =~= names.take(i as int));
                assert(names.take(i + 1).last() == archives@[i as int]@);
            }
            let ghost before = actions_view(actions@);
            match self.umount_archive(archives[i].as_str()) {
                Some(a) => {
                    actions.push(a);
                    assert(actions_view(actions@).skip(start) =~= before.skip(start).push(
                        actions@.last()@,
                    ));
                    assert(actions_view(actions@).take(start) =~= before.take(start));
                },
                None => {},
            }
            i += 1;
        }
        assert(names.take(i as int) =~= names);
    }

    fn archives_under(&self, base: &str) -> (r: Vec<String>)
        ensures
            names_view(r@) == under(self@, base@),
    {
        let ghost dirs = self@;
        let ghost pred = |a: Seq<char>| path_starts_with(a, base@);
        let mut r: Vec<String> = Vec::new();
        let mut i = self.archive_dirs.len();
        assert(dirs.take(i as int) =~= dirs);
        while i > 0
            invariant
                i <= self.archive_dirs@.len(),
                dirs == entries_view(self.archive_dirs@),
                pred == (|a: Seq<char>| path_starts_with(a, base@)),
                rev_filter(dirs, pred) == names_view(r@) + rev_filter(dirs.take(i as int), pred),
            decreases i,
        {
            let j = i - 1;
            proof {
                assert(dirs.take(i as int).drop_last() =~= dirs.take(j as int));
                assert(dirs.take(i as int).last() == dirs[j as int]);
            }
            let ghost before = names_view(r@);
            if crate::paths::starts_with(self.archive_dirs[j].archive_file.as_str(), base) {
                r.push(self.archive_dirs[j].archive_file.clone());
                assert(names_view(r@) =~= before.push(dirs[j as int].0));
            }
            i = j;
        }
        assert(dirs.take(0) =~= Mounts::empty());
        assert(names_view(r@) + Seq::<Seq<char>>::empty() =~= names_view(r@));
        r
    }

    /// Unmounts, for each of `parents` in turn, every archive mounted inside
    /// it (nested archives first), and returns the unmount work in order.
    pub fn umount_parents(&mut self, parents: &[String]) -> (r: Vec<UmountAction>)
        ensures
            umount_parents_spec(old(self)@, names_view(parents@)) == (final(self)@, actions_view(r@)),
    {
        let ghost ps = names_view(parents@);
        let mut actions: Vec<UmountAction> = Vec::new();
        let mut i: usize = 0;
        assert(ps.take(0) =~= Seq::<Seq<char>>::empty());
        assert(actions_view(actions@) =~= Seq::<(Seq<char>, Option<Seq<char>>)>::empty());
        while i < parents.len()
            invariant
                i <= parents@.len(),
                ps == names_view(parents@),
                umount_parents_spec(old(self)@, ps.take(i as int)) == (self@, actions_view(actions@)),
            decreases parents.len() - i,
        {
            proof {
                assert(ps.take(i + 1).drop_last() =~= ps.take(i as int));
                assert(ps.take(i + 1).last() == parents@[i as int]@);
            }
            let ghost before = actions_view(actions@);
            let archive_file = self.archive_path(parents[i].as_str());
            let list = self.archives_under(archive_file.as_str());
            self.umount_list_exec(&list, &mut actions);
            proof {
                let n = before.len() as int;
                assert(actions_view(actions@) =~= actions_view(actions@).take(n) + actions_view(
                    actions@,
                ).skip(n));
            }
            i += 1;
        }
        assert(ps.take(i as int) =~= ps);
        actions
    }

    fn is_related_exec(targets: &Vec<String>, a: &str) -> (r: bool)
        ensures
            r == is_related(names_view(targets@), a@),
    {
        let mut j: usize = 0;
        while j < targets.len()
            invariant
                j <= targets@.len(),
                forall|k: int|
                    0 <= k < j ==> !path_starts_with(#[trigger] names_view(targets@)[k], a@),
            decreases targets.len() - j,
        {
            if crate::paths::starts_with(targets[j].as_str(), a) {
                assert(names_view(targets@)[j as int] == targets@[j as int]@);
                return true;
            }
            j += 1;
        }
        false
    }

    fn is_kept_exec(keep: &Vec<String>, a: &str) -> (r: bool)
        ensures
            r == is_kept(names_view(keep@), a@),
    {
        let mut j: usize = 0;
        while j < keep.len()
            invariant
                j <= keep@.len(),
                forall|k: int| 0 <= k < j ==> !path_equal(#[trigger] names_view(keep@)[k], a@),
            decreases keep.len() - j,
        {
            if crate::paths::equal(keep[j].as_str(), a) {
                assert(names_view(keep@)[j as int] == keep@[j as int]@);
                return true;
            }
            j += 1;
        }
        false
    }

    /// Unmounts every archive that none of `dirs` (the directories shown)
    /// lies in, most recent first, and returns the unmount work in order.
    pub fn umount_unrelated(&mut self, dirs: &[String]) -> (r: Vec<UmountAction>)
        ensures
            umount_unrelated_spec(old(self)@, names_view(dirs@)) == (final(self)@, actions_view(r@)),
    {
        let ghost d0 = self@;
        let ghost shown = names_view(dirs@);
        let mut targets: Vec<String> = Vec::new();
        let mut i: usize = 0;
        while i < dirs.len()
            invariant
                i <= dirs@.len(),
                d0 == self@,
                shown == names_view(dirs@),
                names_view(targets@) =~= shown.take(i as int).map_values(
                    |p: Seq<char>| remap(p, d0, true),
                ),
            decreases dirs.len() - i,
        {
            let t = self.archive_path(dirs[i].as_str());
            let ghost before = names_view(targets@);
            targets.push(t);
            proof {
                let f = |p: Seq<char>| remap(p, d0, true);
                assert(shown.take(i + 1) =~= shown.take(i as int).push(shown[i as int]));
                assert(shown.take(i + 1).map_values(f) =~= shown.take(i as int).map_values(f).push(
                    f(shown[i as int]),
                ));
                assert(names_view(targets@) =~= before.push(t@));
            }
            i += 1;
        }
        assert(shown.take(i as int) =~= shown);
        let ghost tv = names_view(targets@);

        let mut keep: Vec<String> = Vec::new();
        let mut k: usize = 0;
        assert(d0.take(0) =~= Mounts::empty());
        while k < self.archive_dirs.len()
            invariant
                k <= self.archive_dirs@.len(),
                d0 == self@,
                d0 == entries_view(self.archive_dirs@),
                tv == names_view(targets@),
                names_view(keep@) == keep_list(d0.take(k as int), tv),
            decreases self.archive_dirs.len() - k,
        {
            proof {
                assert(d0.take(k + 1).drop_last() =~= d0.take(k as int));
                assert(d0.take(k + 1).last() == d0[k as int]);
            }
            let ghost before = names_view(keep@);
            if Self::is_related_exec(&targets, self.archive_dirs[k].archive_file.as_str()) {
                keep.push(self.archive_dirs[k].archive_file.clone());
                assert(names_view(keep@) =~= before.push(d0[k as int].0));
            }
            k += 1;
        }
        assert(d0.take(k as int) =~= d0);
        let ghost kv = names_view(keep@);
        let ghost pred = |a: Seq<char>| !is_kept(kv, a);

        let mut list: Vec<String> = Vec::new();
        let mut j = self.archive_dirs.len();
        while j > 0
            invariant
                j <= self.archive_dirs@.len(),
                d0 == entries_view(self.archive_dirs@),
                kv == names_view(keep@),
                pred == (|a: Seq<char>| !is_kept(kv, a)),
                rev_filter(d0, pred) == names_view(list@) + rev_filter(d0.take(j as int), pred),
            decreases j,
        {
            let m = j - 1;
            proof {
                assert(d0.take(j as int).drop_last() =~= d0.take(m as int));
                assert(d0.take(j as int).last() == d0[m as int]);
            }
            let ghost before = names_view(list@);
            if !Self::is_kept_exec(&keep, self.archive_dirs[m].archive_file.as_str()) {
                list.push(self.archive_dirs[m].archive_file.clone());
                assert(names_view(list@) =~= before.push(d0[m as int].0));
            }
            j = m;
        }
        assert(names_view(list@) + Seq::<Seq<char>>::empty() =~= names_view(list@));
        let mut actions: Vec<UmountAction> = Vec::new();
        self.umount_list_exec(&list, &mut actions);
        assert(actions_view(actions@).skip(0) =~= actions_view(actions@));
        actions
    }

    /// Unmounts every archive, most recent first (what dropping the mounter
    /// does), and returns the unmount work in order.
    pub fn umount_all(&mut self) -> (r: Vec<UmountAction>)
        ensures
            umount_all_spec(old(self)@) == (final(self)@, actions_view(r@)),
    {
        let ghost d0 = self@;
        let ghost pred = |a: Seq<char>| true;
        let mut list: Vec<String> = Vec::new();
        let mut j = self.archive_dirs.len();
        assert(d0.take(j as int) =~= d0);
        while j > 0
            invariant
                j <= self.archive_dirs@.len(),
                d0 == entries_view(self.archive_dirs@),
                pred == (|a: Seq<char>| true),
                rev_filter(d0, pred) == names_view(list@) + rev_filter(d0.take(j as int), pred),
            decreases j,
        {
            let m = j - 1;
            proof {
                assert(d0.take(j as int).drop_last() =~= d0.take(m as int));
                assert(d0.take(j as int).last() == d0[m as int]);
            }
            let ghost before = names_view(list@);
            list.push(self.archive_dirs[m].archive_file.clone());
            assert(names_view(list@) =~= before.push(d0[m as int].0));
            j = m;
        }
        assert(d0.take(0) =~= Mounts::empty());
        assert(names_view(list@) + Seq::<Seq<char>>::empty() =~= names_view(list@));
        let mut actions: Vec<UmountAction> = Vec::new();
        self.umount_list_exec(&list, &mut actions);
        assert(actions_view(actions@).skip(0) =~= actions_view(actions@));
        actions
    }
}

/// With no archive mounted, both mappings only clean the path.
pub proof fn law_no_mounts_only_clean(file: Seq<char>)
    ensures
        remap(file, Mounts::empty(), false) == path_clean(file),
        remap(file, Mounts::empty(), true) == path_clean(file),
{
}

/// Right after an archive is mounted, a path inside the archive is reached
/// inside its mount directory, and a path inside the mount directory is shown
/// inside the archive.
pub proof fn law_mount_maps_into_mount_dir(
    dirs: Mounts,
    archive: Seq<char>,
    temp_dir: Seq<char>,
    file: Seq<char>,
)
    ensures
        path_starts_with(file, archive) ==> remap(file, dirs.push((archive, temp_dir)), false)
            == path_clean(path_join(temp_dir, path_strip_prefix(file, archive))),
        path_starts_with(file, temp_dir) ==> remap(file, dirs.push((archive, temp_dir)), true)
            == path_clean(path_join(archive, path_strip_prefix(file, temp_dir))),
{
    let d = dirs.push((archive, temp_dir));
    assert(d.drop_last() =~= dirs);
    assert(d.last() == (archive, temp_dir));
    assert(d[d.len() - 1] == (archive, temp_dir));
}

proof fn lemma_umount_one_count(dirs: Mounts, archive: Seq<char>)
    ensures
        umount_one(dirs, archive).0.len() + (if umount_one(dirs, archive).1 is Some { 1int } else { 0 })
            == dirs.len(),
{
    lemma_first_equal_bound(dirs, archive, 0);
}

/// Unmounting a list of archives: every unmount action handed out stands for
/// exactly one archive forgotten.
pub proof fn law_umount_list_count(dirs: Mounts, archives: Seq<Seq<char>>)
    ensures
        umount_list(dirs, archives).0.len() + umount_list(dirs, archives).1.len() == dirs.len(),
    decreases archives.len(),
{
    if archives.len() > 0 {
        law_umount_list_count(dirs, archives.drop_last());
        let (d1, a1) = umount_list(dirs, archives.drop_last());
        lemma_umount_one_count(d1, archives.last());
    }
}

/// The same holds of unmounting the archives inside parent directories.
pub proof fn law_umount_parents_count(dirs: Mounts, parents: Seq<Seq<char>>)
    ensures
        umount_parents_spec(dirs, parents).0.len() + umount_parents_spec(dirs, parents).1.len()
            == dirs.len(),
    decreases parents.len(),
{
    if parents.len() > 0 {
        law_umount_parents_count(dirs, parents.drop_last());
        let (d1, a1) = umount_parents_spec(dirs, parents.drop_last());
        let archive_file = remap(parents.last(), d1, true);
        law_umount_list_count(d1, under(d1, archive_file));
    }
}

} // verus!
