use fcd::database::{DBDirListEntry, DBFileEntry, DBFileStatus, DBJobStatus};
use fcd::report::report_lines;

fn file(path: &str, status: DBFileStatus, message: &str) -> DBFileEntry {
    DBFileEntry {
        id: 0,
        job_id: 0,
        file: path.to_string(),
        is_file: true,
        is_dir: false,
        is_symlink: false,
        size: 0,
        uid: 0,
        gid: 0,
        status,
        message: message.to_string(),
        target_is_dir: false,
        target_is_symlink: false,
        cur_target: None,
    }
}

fn dir(path: &str, status: DBFileStatus, message: &str) -> DBDirListEntry {
    DBDirListEntry {
        id: 0,
        job_id: 0,
        file: file(path, DBFileStatus::Done, ""),
        cur_file: path.to_string(),
        cur_target: String::new(),
        new_dir: false,
        status,
        message: message.to_string(),
    }
}

#[test]
fn report_lists_errors_first() {
    let files = vec![
        file("/w/a", DBFileStatus::Done, ""),
        file("/w/b", DBFileStatus::Skipped, "Target exists"),
        file("/w/c", DBFileStatus::Error, "(copy) disk full"),
        file("/w/d", DBFileStatus::Done, "Overwrite"),
        file("/w/e", DBFileStatus::ToDo, ""),
    ];
    let dirs = vec![dir("/w/x", DBFileStatus::Error, "(rmdir) busy")];
    let report = report_lines(DBJobStatus::Done, "/w", &files, &dirs).unwrap();
    assert_eq!(report.errors, 2);
    assert_eq!(
        report.lines,
        vec![
            "ERROR [(copy) disk full] c",
            "ERROR [(rmdir) busy] x",
            "SKIPPED [Target exists] b",
            "WARNING [Overwrite] d",
            "ABORTED [] e",
        ]
    );
}

#[test]
fn aborted_jobs_list_what_was_done() {
    let files = vec![file("/w/a", DBFileStatus::Done, ""), file("/w/b", DBFileStatus::InProgress, "Resumed")];
    let report = report_lines(DBJobStatus::Aborted, "/w", &files, &[]).unwrap();
    assert_eq!(report.errors, 0);
    assert_eq!(report.lines, vec!["DONE [] a", "ABORTED [Resumed] b"]);
}

#[test]
fn report_needs_relative_paths() {
    let files = vec![file("rel", DBFileStatus::Error, "x")];
    assert!(report_lines(DBJobStatus::Done, "/w", &files, &[]).is_none());
    let files = vec![file("rel", DBFileStatus::Done, "")];
    assert_eq!(report_lines(DBJobStatus::Done, "/w", &files, &[]).unwrap().lines.len(), 0);
}
