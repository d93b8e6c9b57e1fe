use fcd::archive_mounter::ArchiveEntry;
use fcd::database::{DBDirListEntry, DBFileEntry, DBFileStatus, DBJobEntry, DBJobOperation, DBJobStatus};
use fcd::jobs::{
    copy_destination, dest_parent, is_absolute, job_archives, needs_report, not_a_directory, report_path,
    reselect_after_rename, resolve_path, save_report_prompt, PendingJobs, PendingStep, RenameCheck,
};

fn file(status: DBFileStatus, message: &str) -> DBFileEntry {
    DBFileEntry {
        id: 0,
        job_id: 0,
        file: "/w/f".to_string(),
        is_file: true,
        is_dir: false,
        is_symlink: false,
        size: 1,
        uid: 0,
        gid: 0,
        status,
        message: message.to_string(),
        target_is_dir: false,
        target_is_symlink: false,
        cur_target: None,
    }
}

fn dir(status: DBFileStatus, message: &str) -> DBDirListEntry {
    DBDirListEntry {
        id: 0,
        job_id: 0,
        file: file(DBFileStatus::Done, ""),
        cur_file: "/w/d".to_string(),
        cur_target: "/t/d".to_string(),
        new_dir: true,
        status,
        message: message.to_string(),
    }
}

fn job(status: DBJobStatus, operation: DBJobOperation, archives: &[&str]) -> DBJobEntry {
    DBJobEntry {
        id: 7,
        pid: 1,
        operation,
        cwd: "/w".to_string(),
        entries: vec![],
        dest: None,
        on_conflict: None,
        replace_first_path: false,
        archives: archives.iter().map(|a| a.to_string()).collect(),
        status,
    }
}

#[test]
fn clean_jobs_need_no_report() {
    let files = vec![file(DBFileStatus::Done, ""), file(DBFileStatus::Done, "")];
    let dirs = vec![dir(DBFileStatus::Done, "")];
    assert!(!needs_report(DBJobStatus::Done, &files, &dirs));
    assert!(needs_report(DBJobStatus::Aborted, &files, &dirs));
    assert!(needs_report(DBJobStatus::Done, &[file(DBFileStatus::Skipped, "")], &dirs));
    assert!(needs_report(DBJobStatus::Done, &[file(DBFileStatus::Done, "Overwrite")], &dirs));
    assert!(needs_report(DBJobStatus::Done, &files, &[dir(DBFileStatus::Skipped, "")]));
    assert!(needs_report(DBJobStatus::Done, &files, &[dir(DBFileStatus::Done, "(rmdir) busy")]));
}

#[test]
fn jobs_keep_the_archives_they_are_in() {
    let dirs = vec![
        ArchiveEntry::new("/w/a.zip", "/tmp/1"),
        ArchiveEntry::new("/x/b.tar", "/tmp/2"),
        ArchiveEntry::new("/w/a.zip/in.tar", "/tmp/3"),
    ];
    let kept = job_archives(&dirs, "/w/a.zip/in.tar/sub", None);
    let files: Vec<&str> = kept.iter().map(|e| e.archive_file.as_str()).collect();
    assert_eq!(files, vec!["/w/a.zip", "/w/a.zip/in.tar"]);
    let kept = job_archives(&dirs, "/w", Some("/x/b.tar/dir"));
    let files: Vec<&str> = kept.iter().map(|e| e.archive_file.as_str()).collect();
    assert_eq!(files, vec!["/x/b.tar"]);
    assert!(job_archives(&dirs, "/home", None).is_empty());
}

#[test]
fn pending_jobs_mount_archives_in_order_then_resume() {
    let mut pending = PendingJobs::new(vec![
        job(DBJobStatus::Done, DBJobOperation::Rm, &[]),
        job(DBJobStatus::InProgress, DBJobOperation::Mv, &["/a.zip", "/a.zip/b.tar"]),
    ]);
    let next = match pending.next_job() {
        PendingStep::AskAbout(j) => j,
        other => panic!("unexpected {:?}", other),
    };
    assert_eq!(next.operation, DBJobOperation::Mv);
    pending.mount_archives_for(next);
    match pending.next_archive(true) {
        PendingStep::Mount(a) => assert_eq!(a, "/a.zip"),
        other => panic!("unexpected {:?}", other),
    }
    match pending.archive_mounted(true) {
        PendingStep::Mount(a) => assert_eq!(a, "/a.zip/b.tar"),
        other => panic!("unexpected {:?}", other),
    }
    match pending.archive_mounted(true) {
        PendingStep::Resume(op, j) => {
            assert_eq!(op, DBJobOperation::Mv);
            assert_eq!(j.id, 7);
        }
        other => panic!("unexpected {:?}", other),
    }
    assert!(matches!(pending.archive_mounted(true), PendingStep::Nothing));
    let last = match pending.next_job() {
        PendingStep::AskAbout(j) => j,
        other => panic!("unexpected {:?}", other),
    };
    pending.mount_archives_for(last);
    assert!(matches!(pending.next_archive(false), PendingStep::Completed(_)));
    assert!(matches!(pending.next_job(), PendingStep::Nothing));
}

#[test]
fn pending_jobs_without_a_mounter_are_dropped() {
    let mut pending = PendingJobs::new(vec![]);
    pending.mount_archives_for(job(DBJobStatus::Dirscan, DBJobOperation::Cp, &["/a.zip"]));
    match pending.next_archive(false) {
        PendingStep::ErrorThenNextJob(m) => assert_eq!(m, "archivefs/archivemount executable not found"),
        other => panic!("unexpected {:?}", other),
    }
    assert!(pending.job.is_none());
    pending.mount_archives_for(job(DBJobStatus::Dirscan, DBJobOperation::Cp, &["/a.zip"]));
    match pending.archive_mount_error("bad archive") {
        PendingStep::ErrorThenNextJob(m) => assert_eq!(m, "bad archive"),
        other => panic!("unexpected {:?}", other),
    }
    assert!(matches!(pending.archive_mount_error("again"), PendingStep::Nothing));
    pending.mount_archives_for(job(DBJobStatus::Dirscan, DBJobOperation::Cp, &[]));
    assert!(matches!(pending.next_archive(true), PendingStep::Dirscan(_)));
}

#[test]
fn paths_named_by_the_user() {
    assert!(is_absolute("/a"));
    assert!(!is_absolute("a/b"));
    assert!(!is_absolute(""));
    assert_eq!(resolve_path("/w", "new/../dir"), "/w/dir");
    assert_eq!(resolve_path("/w", "/x/./y"), "/x/y");
    let dirs = vec![ArchiveEntry::new("/w/a.zip", "/tmp/1")];
    assert_eq!(report_path("/w/a.zip", "report.txt", &dirs), "/tmp/1/report.txt");
    assert_eq!(report_path("/w", "/r.txt", &dirs), "/r.txt");
    assert_eq!(copy_destination("/tmp/1/in", &dirs), "/w/a.zip/in");
    assert_eq!(copy_destination("/w/50%", &[]), "/w/50%%");
    assert_eq!(dest_parent("/w/x"), "/w");
    assert_eq!(dest_parent("/"), "/");
    assert_eq!(not_a_directory("/w/x"), "/w/x is not a directory");
}

#[test]
fn save_report_prompt_puts_the_cursor_after_the_directory() {
    assert_eq!(save_report_prompt("/w/r.txt"), ("/w/r.txt".to_string(), 2));
    assert_eq!(save_report_prompt("/w/50%/r"), ("/w/50%%/r".to_string(), 7));
    assert_eq!(save_report_prompt("report"), ("report".to_string(), 6));
    assert_eq!(save_report_prompt("é"), ("é".to_string(), 2));
}

#[test]
fn rename_decisions() {
    assert!(matches!(fcd::jobs::rename_check(false, Err("x".into()), Err("y".into())), RenameCheck::Rename));
    assert!(matches!(fcd::jobs::rename_check(true, Ok("/a".into()), Ok("/a".into())), RenameCheck::NoOp));
    match fcd::jobs::rename_check(true, Ok("/a".into()), Ok("/b".into())) {
        RenameCheck::Error(m) => assert_eq!(m, "File already exists"),
        other => panic!("unexpected {:?}", other),
    }
    match fcd::jobs::rename_check(true, Err("gone".into()), Ok("/b".into())) {
        RenameCheck::Error(m) => assert_eq!(m, "gone"),
        other => panic!("unexpected {:?}", other),
    }
    assert_eq!(reselect_after_rename(true, "/w", Some(("/w/old", "old")), "old", "new"), Some("/w/new".to_string()));
    assert_eq!(reselect_after_rename(true, "/w", Some(("/w/x", "x")), "old", "new"), Some("/w/x".to_string()));
    assert_eq!(reselect_after_rename(false, "/v", Some(("/v/old", "old")), "old", "new"), Some("/v/old".to_string()));
    assert_eq!(reselect_after_rename(true, "/w", None, "old", "new"), None);
}
