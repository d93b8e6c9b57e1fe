use fcd::command_template::{apply_template, TemplatePanel};
use fcd::cp_mv::{
    block_size, conflict_action, has_conflict, needs_processing, dest_decision, new_name, resume_offset, resumed_message, save_name,
    unwind_rename_dirs, unwind_skip_dirs, ConflictAction, DestDecision, DlgCpMvType, RenamedTarget,
};
use fcd::database::{
    check_database, job_is_pending, DBCheck, DBFileStatus, DBJobOperation, DBJobStatus, DBRenameDirEntry,
    DBSkipDirEntry, OnConflict,
};
use fcd::entry::{device_size, entry_details, entry_label, is_archive_extension, Entry, FileKind, LinkTarget, Palette};
use fcd::entry::HiddenFiles;
use fcd::fzf::{filter_entries, FzfAction, FzfKey, FzfList, FzfWalk};
use fcd::input::{EditKey, Input};
use fcd::shutil::{expanduser, home_of, DiskUsage, HomeOf};
use fcd::tilde_layout::{tilde_layout, tilde_layout_styled};

fn misc_entry(file: &str) -> Entry {
    let name = file.rsplit('/').next().unwrap().to_string();
    Entry {
        file: file.to_string(),
        file_name: name.clone(),
        key: name.clone(),
        extension: String::new(),
        label: name,
        palette: Palette::Panel,
        is_dir: false,
        modified: None,
        shown_mtime: String::new(),
        size: None,
        shown_size: String::new(),
        details: String::new(),
        link_target: None,
    }
}

#[test]
fn template_placeholders() {
    let focused = TemplatePanel {
        cwd: "/home/u".to_string(),
        selected: Some(misc_entry("/home/u/a.tar.gz")),
        tagged: Vec::new(),
    };
    let other = TemplatePanel { cwd: "/tmp".to_string(), selected: Some(misc_entry("/tmp/x.txt")), tagged: Vec::new() };
    assert_eq!(
        apply_template("%f %n %e %d %b %s [%t] %F %N %D %B", &focused, &other, None, false),
        Some("a.tar.gz a .tar.gz /home/u u a.tar.gz [] /tmp/x.txt x /tmp tmp".to_string())
    );
    assert_eq!(apply_template("100%% of %z", &focused, &other, None, false), Some("100% of %z".to_string()));
}

#[test]
fn template_quoting_and_tags() {
    let focused = TemplatePanel {
        cwd: "/home/u".to_string(),
        selected: Some(misc_entry("/home/u/a b")),
        tagged: vec![misc_entry("/home/u/x y.txt"), misc_entry("/home/u/z")],
    };
    let other = TemplatePanel { cwd: "/tmp".to_string(), selected: None, tagged: vec![misc_entry("/tmp/q")] };
    assert_eq!(
        apply_template("%f|%s|%t|%F|%S|%T", &focused, &other, None, true),
        Some("'a b'|'x y.txt' z|'x y.txt' z|''|/tmp/q|/tmp/q".to_string())
    );
}

#[test]
fn template_refuses_unrelated_paths() {
    let focused = TemplatePanel { cwd: "/home/u".to_string(), selected: Some(misc_entry("rel")), tagged: Vec::new() };
    let other = TemplatePanel { cwd: "/tmp".to_string(), selected: None, tagged: Vec::new() };
    assert_eq!(apply_template("%f", &focused, &other, None, false), None);
}

#[test]
fn fzf_ranks_matches() {
    let files = vec![
        ("/d/ab.txt".to_string(), false),
        ("/d/zz".to_string(), false),
        ("/d/ab".to_string(), true),
    ];
    assert_eq!(
        filter_entries("/d", &files, "ab"),
        Some(vec![("/d/ab".to_string(), true), ("/d/ab.txt".to_string(), false)])
    );
    assert_eq!(filter_entries("/d", &files, "qqq"), Some(Vec::new()));
    let bad = vec![("rel".to_string(), false)];
    assert_eq!(filter_entries("/d", &bad, "r"), None);
}

#[test]
fn fzf_list_keys() {
    let mut l = FzfList::new(3);
    assert!(matches!(l.handle_key(FzfKey::Char('\n')), FzfAction::Close));
    l.set_entries(vec![("/a".to_string(), false), ("/b".to_string(), false), ("/c".to_string(), true)]);
    assert!(matches!(l.handle_key(FzfKey::Up), FzfAction::Nothing));
    assert_eq!(l.cursor, 1);
    l.handle_key(FzfKey::Char('g'));
    assert_eq!(l.cursor, 2);
    l.handle_key(FzfKey::Down);
    assert_eq!(l.cursor, 1);
    match l.handle_key(FzfKey::Char(' ')) {
        FzfAction::Select(f) => assert_eq!(f, "/b"),
        other => panic!("unexpected {:?}", other),
    }
    assert!(matches!(l.handle_key(FzfKey::Ctrl('c')), FzfAction::Unhandled));
    assert!(matches!(l.handle_key(FzfKey::Esc), FzfAction::Close));
    l.set_entries(vec![("/a".to_string(), false)]);
    assert_eq!(l.cursor, 0);
}

#[test]
fn copy_decisions() {
    assert_eq!(block_size(None), 131072);
    assert_eq!(block_size(Some(4096)), 131072);
    assert_eq!(block_size(Some(100000)), 200000);
    assert_eq!(resume_offset(300000, 131072), 131072);
    assert_eq!(resume_offset(100, 131072), 0);
    assert_eq!(conflict_action(DlgCpMvType::Mv, OnConflict::RenameCopy, true), ConflictAction::SameFile);
    assert_eq!(conflict_action(DlgCpMvType::Cp, OnConflict::RenameCopy, true), ConflictAction::RenameCopy);
    assert_eq!(conflict_action(DlgCpMvType::Cp, OnConflict::Overwrite, false), ConflictAction::Overwrite);
    assert_eq!(save_name("f", 2), "f.fcdsave2");
    assert_eq!(new_name("f", 0), "f.fcdnew0");
    assert_eq!(resumed_message(""), "Resumed");
    assert_eq!(resumed_message("Resumed -- x"), "Resumed -- x");
    assert_eq!(resumed_message("x"), "Resumed -- x");
}

#[test]
fn destination_decisions() {
    let d = |op, oc, n, dd, dc, pd, pc, sn| dest_decision(op, oc, n, dd, dc, pd, pc, sn);
    assert_eq!(d(DBJobOperation::Mv, OnConflict::RenameCopy, 2, true, true, false, false, false), DestDecision::NoOp);
    assert_eq!(d(DBJobOperation::Cp, OnConflict::RenameCopy, 2, true, true, false, false, false), DestDecision::Proceed);
    assert_eq!(d(DBJobOperation::Cp, OnConflict::Skip, 2, false, false, true, true, true), DestDecision::NotADirectory(true));
    assert_eq!(d(DBJobOperation::Cp, OnConflict::Skip, 1, false, false, false, false, false), DestDecision::NotADirectory(false));
    assert_eq!(d(DBJobOperation::Cp, OnConflict::Skip, 1, false, false, true, true, true), DestDecision::NoOp);
    assert_eq!(d(DBJobOperation::Cp, OnConflict::Skip, 1, false, false, true, true, false), DestDecision::Proceed);
}

#[test]
fn skip_and_rename_stacks() {
    let mut skips = vec![
        DBSkipDirEntry { id: 1, job_id: 9, file: "/a".to_string() },
        DBSkipDirEntry { id: 2, job_id: 9, file: "/a/b".to_string() },
        DBSkipDirEntry { id: 3, job_id: 9, file: "/a/c".to_string() },
    ];
    let (skip, popped) = unwind_skip_dirs(&mut skips, "/a/b/f");
    assert!(skip);
    assert_eq!(popped, vec![3]);
    assert_eq!(skips.len(), 2);
    let (skip, popped) = unwind_skip_dirs(&mut skips, "/x");
    assert!(!skip);
    assert_eq!(popped, vec![2, 1]);
    let mut renames = vec![DBRenameDirEntry {
        id: 5,
        job_id: 9,
        existing_target: "/dst/d".to_string(),
        cur_target: "/dst/d.fcdnew0".to_string(),
    }];
    match unwind_rename_dirs(&mut renames, "/dst/d/f") {
        (RenamedTarget::Renamed(t), popped) => {
            assert_eq!(t, "/dst/d.fcdnew0/f");
            assert!(popped.is_empty());
        }
        other => panic!("unexpected {:?}", other),
    }
    assert!(matches!(unwind_rename_dirs(&mut renames, "/dst/e"), (RenamedTarget::Unchanged, _)));
    assert!(renames.is_empty());
}

#[test]
fn database_texts_and_checks() {
    assert_eq!(OnConflict::RenameExisting.to_sql(), "RENAME_EXISTING");
    assert_eq!(OnConflict::column_result("SKIP"), Some(OnConflict::Skip));
    assert_eq!(OnConflict::column_result("skip"), None);
    assert_eq!(DBJobOperation::column_result(DBJobOperation::Mv.to_sql()), Some(DBJobOperation::Mv));
    assert_eq!(DBJobStatus::column_result(DBJobStatus::Dirscan.to_sql()), Some(DBJobStatus::Dirscan));
    assert_eq!(DBFileStatus::column_result(DBFileStatus::Done.to_sql()), Some(DBFileStatus::Done));
    assert_eq!(check_database("fcd", "1"), DBCheck::Keep);
    assert_eq!(check_database("fcd", "0"), DBCheck::Recreate);
    assert_eq!(check_database("x", "1"), DBCheck::Unknown);
    assert!(job_is_pending(5, 5, None, None));
    assert!(!job_is_pending(4, 5, Some("/usr/bin/fcd"), Some("/usr/bin/fcd")));
    assert!(job_is_pending(4, 5, Some("/usr/bin/fcd"), Some("/usr/bin/other")));
    assert!(job_is_pending(4, 5, Some("/usr/bin/fcd"), None));
}

#[test]
fn archive_extensions() {
    assert!(is_archive_extension(".tar.gz"));
    assert!(is_archive_extension(".7z"));
    assert!(!is_archive_extension(".txt"));
    assert!(!is_archive_extension(""));
}

#[test]
fn input_editing() {
    let mut i = Input::new("abc", 10);
    assert_eq!(i.cursor_position(), 3);
    assert!(i.handle_key(EditKey::Backspace));
    assert_eq!(i.value(), "ab");
    i.handle_key(EditKey::Left);
    i.handle_key(EditKey::Char('x'));
    assert_eq!(i.value(), "axb");
    i.handle_key(EditKey::Home);
    i.handle_key(EditKey::Delete);
    assert_eq!(i.value(), "xb");
    i.handle_key(EditKey::End);
    assert_eq!(i.cursor_position(), 2);
    assert!(!i.handle_key(EditKey::Char('\n')));
    let t = Input::new("  padded  ", 0);
    assert_eq!(t.value(), "padded");
}

#[test]
fn input_layout_scrolls_to_cursor() {
    let mut i = Input::new("abcdefghij", 10);
    let (shown, x) = i.layout(5, 1).unwrap();
    assert_eq!(shown, "ghij");
    assert_eq!(x, 4);
    assert!(i.layout(0, 1).is_none());
}

#[test]
fn tilde_layout_examples() {
    assert_eq!(tilde_layout("short", 10), "short");
    assert_eq!(tilde_layout("abcdefghij", 5), "ab~ij");
    assert_eq!(tilde_layout("abcdefghij", 2), "a~");
}

#[test]
fn shutil_examples() {
    let u = DiskUsage::from_statvfs(100, 40, 30, 4096);
    assert_eq!(u.total, 409600);
    assert_eq!(u.free, 122880);
    assert_eq!(u.used, 245760);
    assert_eq!(home_of("/abs"), HomeOf::Nobody);
    assert_eq!(home_of("~/x"), HomeOf::CurrentUser);
    assert_eq!(home_of("~bob/x"), HomeOf::User("bob".to_string()));
    assert_eq!(expanduser("~/docs", Some("/home/me")), "/home/me/docs");
    assert_eq!(expanduser("~", Some("/home/me")), "/home/me");
    assert_eq!(expanduser("~/docs", None), "~/docs");
    assert_eq!(expanduser("/etc", Some("/home/me")), "/etc");
    assert_eq!(expanduser("~/x", Some("rel")), "~/x");
}

#[test]
fn tilde_layout_styled_examples() {
    let fits = vec![("ab".to_string(), 1u8), ("cd".to_string(), 2u8)];
    assert_eq!(tilde_layout_styled(&fits, 10, 0u8), fits);
    let long = vec![("abcdef".to_string(), 1u8), ("ghij".to_string(), 2u8)];
    assert_eq!(
        tilde_layout_styled(&long, 5, 0u8),
        vec![("ab".to_string(), 1u8), ("~".to_string(), 1u8), ("ij".to_string(), 2u8)]
    );
    let many = vec![("a".to_string(), 1u8), ("bcdefgh".to_string(), 2u8), ("i".to_string(), 3u8)];
    assert_eq!(
        tilde_layout_styled(&many, 6, 0u8),
        vec![("a".to_string(), 1u8), ("b".to_string(), 2u8), ("~".to_string(), 2u8), ("gh".to_string(), 2u8), ("i".to_string(), 3u8)]
    );
}

#[test]
fn entry_labels_and_details() {
    assert_eq!(entry_label(FileKind::Directory, LinkTarget::File, 0o40755, "d", ""), ("/d".to_string(), Palette::Directory));
    assert_eq!(entry_label(FileKind::Symlink, LinkTarget::File, 0o120777, "a.zip", ".zip"), ("@a.zip".to_string(), Palette::Archive));
    assert_eq!(entry_label(FileKind::Symlink, LinkTarget::Directory, 0o120777, "l", ""), ("~l".to_string(), Palette::DirSymlink));
    assert_eq!(entry_label(FileKind::Symlink, LinkTarget::Missing, 0o120777, "s", ""), ("!s".to_string(), Palette::Stalelink));
    assert_eq!(entry_label(FileKind::Other, LinkTarget::File, 0o100755, "run", ""), ("*run".to_string(), Palette::Executable));
    assert_eq!(entry_label(FileKind::Other, LinkTarget::File, 0o100644, "x.tar.gz", ".tar.gz"), (" x.tar.gz".to_string(), Palette::Archive));
    assert_eq!(entry_label(FileKind::Fifo, LinkTarget::File, 0o10644, "p", ""), ("|p".to_string(), Palette::Special));
    assert_eq!(entry_details(0o100644, 1, "me", "users", "f", None), "-rw-r--r-- 1 me users f");
    assert_eq!(entry_details(0o120777, 2, "me", "users", "l", Some(Some("/t"))), "lrwxrwxrwx 2 me users -> /t");
    assert_eq!(entry_details(0o120777, 1, "0", "0", "l", Some(None)), "lrwxrwxrwx 1 0 0 -> ?");
    assert_eq!(device_size(8, 1), (34359738369, "8,1".to_string()));
}

#[test]
fn job_file_decisions() {
    assert!(needs_processing(DBFileStatus::InProgress));
    assert!(!needs_processing(DBFileStatus::Done));
    assert!(!needs_processing(DBFileStatus::Skipped));
    assert!(!needs_processing(DBFileStatus::Error));
    assert!(has_conflict(true, false, false, true));
    assert!(!has_conflict(true, false, true, true));
    assert!(!has_conflict(true, true, false, false));
    assert!(!has_conflict(false, false, false, false));
    assert_eq!(fcd::rm::removal_status(fcd::rm::RemoveOutcome::NotFound), DBFileStatus::Done);
    assert_eq!(fcd::rm::removal_status(fcd::rm::RemoveOutcome::Removed), DBFileStatus::Done);
    assert_eq!(fcd::rm::removal_status(fcd::rm::RemoveOutcome::Failed), DBFileStatus::Error);
}

#[test]
fn fzf_walk_reads_level_by_level_and_hides_dot_files() {
    let initial = vec![("/w/a".to_string(), true), ("/w/f".to_string(), false), ("/w/b".to_string(), true)];
    let mut walk = FzfWalk::new(&initial, HiddenFiles::Hide);
    assert_eq!(walk.next_dir(), Some("/w/a".to_string()));
    assert_eq!(walk.entry("/w/a/c", true), Some(("/w/a/c".to_string(), true)));
    assert_eq!(walk.entry("/w/a/.git", true), None);
    assert_eq!(walk.next_dir(), Some("/w/b".to_string()));
    assert_eq!(walk.entry("/w/b/x", false), Some(("/w/b/x".to_string(), false)));
    assert_eq!(walk.next_dir(), Some("/w/a/c".to_string()));
    assert_eq!(walk.next_dir(), None);
    let mut shown = FzfWalk::new(&[], HiddenFiles::Show);
    assert_eq!(shown.entry("/w/.x", false), Some(("/w/.x".to_string(), false)));
    assert_eq!(shown.next_dir(), None);
}

#[test]
fn link_targets_resolve_under_the_link_directory() {
    assert_eq!(fcd::entry::resolve_link_target("/w/l", "../x/./y"), "/x/y");
    assert_eq!(fcd::entry::resolve_link_target("/w/l", "/abs//t"), "/abs/t");
    assert_eq!(fcd::entry::resolve_link_target("/w/l", "t"), "/w/t");
}

#[test]
fn directory_sizes_count_entries() {
    assert_eq!(fcd::entry::directory_size(Some(12)), (Some(12), "12".to_string()));
    assert_eq!(fcd::entry::directory_size(None), (None, "?".to_string()));
}

#[test]
fn paths_sort_by_components() {
    use_path_order();
}

fn use_path_order() {
    assert!(fcd::paths::path_sorts_before("/w/a/x", "/w/a-b"));
    assert!(!fcd::paths::path_sorts_before("/w/a-b", "/w/a/x"));
    assert!(fcd::paths::path_sorts_before("/z", "a"));
    assert!(fcd::paths::path_sorts_before("../x", "-x"));
    assert!(fcd::paths::path_sorts_before("/w/a", "/w/a/b"));
    assert!(!fcd::paths::path_sorts_before("/w/a", "/w/a"));
    assert!(fcd::paths::path_sorts_before("/w/B", "/w/a"));
}
