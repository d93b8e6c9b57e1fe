//! The `ls -l` style rendering of a file mode.

use vstd::prelude::*;
use crate::strings::push_char;

verus! {

pub const S_IFMT: u32 = 0o170000;
pub const S_IFSOCK: u32 = 0o140000;
pub const S_IFLNK: u32 = 0o120000;
pub const S_IFREG: u32 = 0o100000;
pub const S_IFBLK: u32 = 0o060000;
pub const S_IFDIR: u32 = 0o040000;
pub const S_IFCHR: u32 = 0o020000;
pub const S_IFIFO: u32 = 0o010000;
pub const S_ISUID: u32 = 0o4000;
pub const S_ISGID: u32 = 0o2000;
pub const S_ISVTX: u32 = 0o1000;
pub const S_IRUSR: u32 = 0o400;
pub const S_IWUSR: u32 = 0o200;
pub const S_IXUSR: u32 = 0o100;
pub const S_IRGRP: u32 = 0o040;
pub const S_IWGRP: u32 = 0o020;
pub const S_IXGRP: u32 = 0o010;
pub const S_IROTH: u32 = 0o004;
pub const S_IWOTH: u32 = 0o002;
pub const S_IXOTH: u32 = 0o001;

/// All the bits of `bits` are set in `mode`.
pub open spec fn has_bits(mode: u32, bits: u32) -> bool {
    mode & bits == bits
}

/// The file type letter: the first type whose bits are all set, checking the
/// socket type before the regular file and directory types it contains.
pub open spec fn type_char(mode: u32) -> char {
    if has_bits(mode, S_IFLNK) {
        'l'
    } else if has_bits(mode, S_IFSOCK) {
        's'
    } else if has_bits(mode, S_IFREG) {
        '-'
    } else if has_bits(mode, S_IFBLK) {
        'b'
    } else if has_bits(mode, S_IFDIR) {
        'd'
    } else if has_bits(mode, S_IFCHR) {
        'c'
    } else if has_bits(mode, S_IFIFO) {
        'p'
    } else {
        '-'
    }
}

/// A permission letter: `yes` when the bit is set, else `-`.
pub open spec fn flag_char(mode: u32, bit: u32, yes: char) -> char {
    if has_bits(mode, bit) { yes } else { '-' }
}

/// An execute letter combined with a special bit: `both` when both are set,
/// `special` when only the special bit is set, `x` when only execute is set.
pub open spec fn exec_char(mode: u32, x: u32, special: u32, both: char, only_special: char) -> char {
    if has_bits(mode, x | special) {
        both
    } else if has_bits(mode, special) {
        only_special
    } else if has_bits(mode, x) {
        'x'
    } else {
        '-'
    }
}

/// The ten letters of the mode string, in the form `-rwxrwxrwx`.
pub open spec fn filemode_spec(mode: u32) -> Seq<char> {
    seq![
        type_char(mode),
        flag_char(mode, S_IRUSR, 'r'),
        flag_char(mode, S_IWUSR, 'w'),
        exec_char(mode, S_IXUSR, S_ISUID, 's', 'S'),
        flag_char(mode, S_IRGRP, 'r'),
        flag_char(mode, S_IWGRP, 'w'),
        exec_char(mode, S_IXGRP, S_ISGID, 's', 'S'),
        flag_char(mode, S_IROTH, 'r'),
        flag_char(mode, S_IWOTH, 'w'),
        exec_char(mode, S_IXOTH, S_ISVTX, 't', 'T'),
    ]
}

fn flag(mode: u32, bit: u32, yes: char) -> (c: char)
    ensures
        c == flag_char(mode, bit, yes),
{
    if mode & bit == bit { yes } else { '-' }
}

fn exec_flag(mode: u32, x: u32, special: u32, both: char, only_special: char) -> (c: char)
    ensures
        c == exec_char(mode, x, special, both, only_special),
{
    if mode & (x | special) == (x | special) {
        both
    } else if mode & special == special {
        only_special
    } else if mode & x == x {
        'x'
    } else {
        '-'
    }
}

fn file_type(mode: u32) -> (c: char)
    ensures
        c == type_char(mode),
{
    if mode & S_IFLNK == S_IFLNK {
        'l'
    } else if mode & S_IFSOCK == S_IFSOCK {
        's'
    } else if mode & S_IFREG == S_IFREG {
        '-'
    } else if mode & S_IFBLK == S_IFBLK {
        'b'
    } else if mode & S_IFDIR == S_IFDIR {
        'd'
    } else if mode & S_IFCHR == S_IFCHR {
        'c'
    } else if mode & S_IFIFO == S_IFIFO {
        'p'
    } else {
        '-'
    }
}

/// Convert a file's mode to a string of the form '-rwxrwxrwx'.
pub fn filemode(mode: u32) -> (res: String)
    ensures
        res@ == filemode_spec(mode),
{
    let mut perm = String::new();
    push_char(&mut perm, file_type(mode));
    push_char(&mut perm, flag(mode, S_IRUSR, 'r'));
    push_char(&mut perm, flag(mode, S_IWUSR, 'w'));
    push_char(&mut perm, exec_flag(mode, S_IXUSR, S_ISUID, 's', 'S'));
    push_char(&mut perm, flag(mode, S_IRGRP, 'r'));
    push_char(&mut perm, flag(mode, S_IWGRP, 'w'));
    push_char(&mut perm, exec_flag(mode, S_IXGRP, S_ISGID, 's', 'S'));
    push_char(&mut perm, flag(mode, S_IROTH, 'r'));
    push_char(&mut perm, flag(mode, S_IWOTH, 'w'));
    push_char(&mut perm, exec_flag(mode, S_IXOTH, S_ISVTX, 't', 'T'));
    assert(perm@ =~= filemode_spec(mode));
    perm
}

} // verus!
