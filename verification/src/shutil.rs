//! Shell-like helpers: disk usage from file system statistics, and the
//! expansion of a leading `~` or `~user` in a path.

use vstd::prelude::*;
use crate::paths::path_join;
use crate::strings::chars_of;

verus! {

broadcast use vstd::string::group_string_axioms;

/// Disk usage statistics of a file system, in bytes.
#[derive(Debug, Clone, Copy)]
pub struct DiskUsage {
    /// Total space in bytes
    pub total: u64,

    /// Used space in bytes
    pub used: u64,

    /// Free space in bytes
    pub free: u64,
}

impl DiskUsage {
    /// The usage from the block counts of `statvfs`: all blocks, the free
    /// blocks, the blocks available to unprivileged users, and the fragment
    /// size.
    pub fn from_statvfs(f_blocks: u64, f_bfree: u64, f_bavail: u64, f_frsize: u64) -> (r: DiskUsage)
        requires
            f_bfree <= f_blocks,
            f_blocks * f_frsize <= u64::MAX,
            f_bavail * f_frsize <= u64::MAX,
        ensures
            r.total == f_blocks * f_frsize,
            r.used == (f_blocks - f_bfree) * f_frsize,
            r.free == f_bavail * f_frsize,
    {
        assert((f_blocks - f_bfree) * f_frsize <= f_blocks * f_frsize) by (nonlinear_arith)
            requires
                f_bfree <= f_blocks,
        ;
        DiskUsage {
            total: f_blocks * f_frsize,
            used: (f_blocks - f_bfree) * f_frsize,
            free: f_bavail * f_frsize,
        }
    }
}

/// Where the user name of `~user` ends: at the first `/`, or at the end.
pub open spec fn tilde_end(s: Seq<char>, k: int) -> int
    decreases s.len() - k,
{
    if k >= s.len() {
        s.len() as int
    } else if s[k] == '/' {
        k
    } else {
        tilde_end(s, k + 1)
    }
}

proof fn lemma_tilde_end_bound(s: Seq<char>, k: int)
    requires
        0 <= k <= s.len(),
    ensures
        k <= tilde_end(s, k) <= s.len(),
        tilde_end(s, k) < s.len() ==> s[tilde_end(s, k)] == '/',
    decreases s.len() - k,
{
    if k < s.len() && s[k] != '/' {
        lemma_tilde_end_bound(s, k + 1);
    }
}

/// Whose home directory a path refers to.
#[derive(Debug, Clone, PartialEq, Eq)]
pub enum HomeOf {
    /// The path does not start with `~`.
    Nobody,
    /// `~` or `~/...`: the current user.
    CurrentUser,
    /// `~name` or `~name/...`.
    User(String),
}

/// The home directory a path refers to.
pub fn home_of(path: &str) -> (r: HomeOf)
    ensures
        ({
            let s = path@;
            let i = tilde_end(s, 0);
            if !(s.len() > 0 && s[0] == '~') {
                r == HomeOf::Nobody
            } else if i == 1 {
                r == HomeOf::CurrentUser
            } else {
                r matches HomeOf::User(name) && name@ == s.subrange(1, i)
            }
        }),
{
    let v = chars_of(path);
    if !(v.len() > 0 && v[0] == '~') {
        return HomeOf::Nobody;
    }
    let i = find_slash(&v);
    proof {
        lemma_tilde_end_bound(v@, 1);
    }
    if i == 1 {
        HomeOf::CurrentUser
    } else {
        let mut name = String::new();
        let mut k: usize = 1;
        while k < i
            invariant
                1 <= k <= i <= v@.len(),
                name@ == v@.subrange(1, k as int),
            decreases i - k,
        {
            crate::strings::push_char(&mut name, v[k]);
            assert(v@.subrange(1, k + 1) =~= v@.subrange(1, k as int).push(v@[k as int]));
            k += 1;
        }
        HomeOf::User(name)
    }
}

fn find_slash(v: &Vec<char>) -> (i: usize)
    ensures
        i == tilde_end(v@, 0),
        i <= v@.len(),
{
    let mut i: usize = 0;
    while i < v.len() && v[i] != '/'
        invariant
            i <= v@.len(),
            tilde_end(v@, 0) == tilde_end(v@, i as int),
        decreases v.len() - i,
    {
        i += 1;
    }
    i
}

/// The expansion of a path: unchanged when it does not start with `~` or the
/// home directory is unknown; otherwise the home directory joined with what
/// follows the first `/`, kept only when it is absolute.
pub open spec fn expanduser_spec(path: Seq<char>, home: Option<Seq<char>>) -> Seq<char> {
    let i = tilde_end(path, 0);
    if !(path.len() > 0 && path[0] == '~') {
        path
    } else {
        match home {
            None => path,
            Some(h) => {
                let e = if i < path.len() { path_join(h, path.skip(i + 1)) } else { h };
                if e.len() > 0 && e[0] == '/' { e } else { path }
            },
        }
    }
}

/// Expands a leading `~` or `~user` with `home`, the home directory that
/// `home_of` names (none when it could not be found).
pub fn expanduser(path: &str, home: Option<&str>) -> (r: String)
    ensures
        r@ == expanduser_spec(path@, match home {
            Some(h) => Some(h@),
            None => None,
        }),
{
    let v = chars_of(path);
    if !(v.len() > 0 && v[0] == '~') {
        return path.to_string();
    }
    let h = match home {
        Some(h) => h,
        None => return path.to_string(),
    };
    let i = find_slash(&v);
    let e = if i < v.len() {
        let mut rest = String::new();
        let mut k: usize = i + 1;
        assert(v@.subrange(i + 1, i + 1) =~= Seq::<char>::empty());
        while k < v.len()
            invariant
                i < v@.len(),
                i + 1 <= k <= v@.len(),
                rest@ == v@.subrange(i + 1, k as int),
            decreases v.len() - k,
        {
            crate::strings::push_char(&mut rest, v[k]);
            assert(v@.subrange(i + 1, k + 1) =~= v@.subrange(i + 1, k as int).push(v@[k as int]));
            k += 1;
        }
        assert(v@.subrange(i + 1, v@.len() as int) =~= v@.skip(i + 1));
        crate::paths::join(h, rest.as_str())
    } else {
        h.to_string()
    };
    let ev = chars_of(e.as_str());
    if ev.len() > 0 && ev[0] == '/' {
        e
    } else {
        path.to_string()
    }
}

} // verus!
