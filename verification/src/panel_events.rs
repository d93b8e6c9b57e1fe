//! What a file panel does with the events that reach it from elsewhere: the
//! outcome of mounting an archive it asked for, a directory created by the
//! user, and a file picked to be selected.

use vstd::prelude::*;
use crate::paths::{equal, parent, path_equal, path_parent, path_starts_with, paths_match, same_path, starts_with};

verus! {

/// An archive that the panel asked to have mounted: explicitly (the user
/// asked to mount it) or implicitly (the user opened it).
#[derive(Debug, Clone, PartialEq, Eq)]
pub enum MountRequest {
    Idle,
    Explicit(String),
    Implicit(String),
}

/// What happened to a mount.
#[derive(Debug, Clone, PartialEq, Eq)]
pub enum MountEvent {
    /// The archive was mounted at the directory.
    Mounted(String, String),
    /// It could not be mounted, with the error.
    Failed(String, String),
    /// The user cancelled the mount.
    Cancelled(String),
}

/// What the panel does about a mount event.
#[derive(Debug, Clone, PartialEq, Eq)]
pub enum MountReaction {
    Nothing,
    /// Enter the mounted archive.
    Chdir(String),
    /// Show the error.
    Error(String),
    /// Open the archive as a file instead.
    OpenFile(String),
}

/// The archive a request is for.
pub open spec fn requested(r: MountRequest) -> Option<Seq<char>> {
    match r {
        MountRequest::Idle => None,
        MountRequest::Explicit(a) => Some(a@),
        MountRequest::Implicit(a) => Some(a@),
    }
}

/// The archive an event is about.
pub open spec fn event_archive(e: MountEvent) -> Seq<char> {
    match e {
        MountEvent::Mounted(a, _) => a@,
        MountEvent::Failed(a, _) => a@,
        MountEvent::Cancelled(a) => a@,
    }
}

impl MountRequest {
    /// Handles a mount event: an event about the requested archive ends
    /// the request; a mounted archive is entered, a failed explicit mount
    /// shows the error, a failed implicit one opens the file instead.
    /// Events about other archives change nothing.
    pub fn on_event(&mut self, event: &MountEvent) -> (r: MountReaction)
        ensures
            match requested(*old(self)) {
                Some(a) if same_path(a, event_archive(*event)) => {
                    &&& *final(self) == MountRequest::Idle
                    &&& match *event {
                        MountEvent::Mounted(_, dir) => r matches MountReaction::Chdir(d) && d@ == dir@,
                        MountEvent::Failed(archive, error) => match *old(self) {
                            MountRequest::Explicit(_) => r matches MountReaction::Error(m) && m@ == error@,
                            _ => r matches MountReaction::OpenFile(f) && f@ == archive@,
                        },
                        MountEvent::Cancelled(_) => r == MountReaction::Nothing,
                    }
                },
                _ => *final(self) == *old(self) && r == MountReaction::Nothing,
            },
    {
        let (archive, explicit) = match self {
            MountRequest::Idle => return MountReaction::Nothing,
            MountRequest::Explicit(a) => (a.clone(), true),
            MountRequest::Implicit(a) => (a.clone(), false),
        };
        let about = match event {
            MountEvent::Mounted(a, _) => a,
            MountEvent::Failed(a, _) => a,
            MountEvent::Cancelled(a) => a,
        };
        if !paths_match(archive.as_str(), about.as_str()) {
            return MountReaction::Nothing;
        }
        *self = MountRequest::Idle;
        match event {
            MountEvent::Mounted(_, dir) => MountReaction::Chdir(dir.clone()),
            MountEvent::Failed(a, error) => {
                if explicit {
                    MountReaction::Error(error.clone())
                } else {
                    MountReaction::OpenFile(a.clone())
                }
            },
            MountEvent::Cancelled(_) => MountReaction::Nothing,
        }
    }
}

/// The first of `path` and its ancestors whose parent is `dir`, looking at
/// no more than `fuel` of them.
pub open spec fn child_toward_spec(path: Seq<char>, dir: Seq<char>, fuel: nat) -> Option<Seq<char>>
    decreases fuel,
{
    if fuel == 0 {
        None
    } else {
        match path_parent(path) {
            None => None,
            Some(p) => if path_equal(p, dir) {
                Some(path)
            } else {
                child_toward_spec(p, dir, (fuel - 1) as nat)
            },
        }
    }
}

/// The entry of `dir` that `path` lies in (or is): the first of `path` and
/// its ancestors whose parent is `dir`.  A path has at most one ancestor
/// more than it has characters, and the last one has no parent, which
/// bounds the walk.
pub fn child_toward(path: &str, dir: &str) -> (r: Option<String>)
    ensures
        match child_toward_spec(path@, dir@, path@.len()) {
            Some(c) => r matches Some(x) && x@ == c,
            None => r is None,
        },
{
    let n = crate::strings::chars_of(path).len();
    let mut cur = path.to_string();
    let mut fuel: usize = n;
    while fuel > 0
        invariant
            child_toward_spec(path@, dir@, path@.len()) == child_toward_spec(
                cur@,
                dir@,
                fuel as nat,
            ),
        decreases fuel,
    {
        match parent(cur.as_str()) {
            None => return None,
            Some(p) => {
                if equal(p.as_str(), dir) {
                    return Some(cur);
                }
                cur = p;
            },
        }
        fuel -= 1;
    }
    None
}

/// The entry to select after the directory `new_dir` was created: in the
/// focused panel, when it lies under the panel's directory, the entry it
/// lies in; else the entry selected before.
pub fn dir_created_selection(focused: bool, new_dir: &str, cwd: &str, selected: Option<String>) -> (r: Option<
    String,
>)
    ensures
        if focused && path_starts_with(new_dir@, cwd@) {
            match child_toward_spec(new_dir@, cwd@, new_dir@.len()) {
                Some(c) => r matches Some(x) && x@ == c,
                None => r is None,
            }
        } else {
            r == selected
        },
{
    if focused && starts_with(new_dir, cwd) {
        child_toward(new_dir, cwd)
    } else {
        selected
    }
}

/// What a panel does with a file picked to be selected.
#[derive(Debug, Clone, PartialEq, Eq)]
pub enum SelectPlan {
    /// The panel is not focused: nothing.
    Ignore,
    /// The file is in the panel's directory: select it.
    Select(String),
    /// Go to the file's directory and select it there.
    Chdir(String, String),
    /// The file has no parent directory.
    NoParent,
}

pub fn select_file_plan(focused: bool, file: &str, cwd: &str) -> (r: SelectPlan)
    ensures
        !focused ==> r == SelectPlan::Ignore,
        focused ==> match path_parent(file@) {
            None => r == SelectPlan::NoParent,
            Some(p) => if path_equal(p, cwd@) {
                r matches SelectPlan::Select(f) && f@ == file@
            } else {
                r matches SelectPlan::Chdir(d, f) && d@ == p && f@ == file@
            },
        },
{
    if !focused {
        return SelectPlan::Ignore;
    }
    match parent(file) {
        None => SelectPlan::NoParent,
        Some(p) => {
            if equal(p.as_str(), cwd) {
                SelectPlan::Select(file.to_string())
            } else {
                SelectPlan::Chdir(p, file.to_string())
            }
        },
    }
}

} // verus!
