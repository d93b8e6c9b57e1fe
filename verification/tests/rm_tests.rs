use fcd::database::{DBFileEntry, DBFileStatus, DBJobStatus};
use fcd::rm::{sort_by_file_desc, RemoveOutcome, RmJob, RmStep};

fn entry(file: &str, is_dir: bool, status: DBFileStatus) -> DBFileEntry {
    DBFileEntry {
        id: 0,
        job_id: 0,
        file: file.to_string(),
        is_file: !is_dir,
        is_dir,
        is_symlink: false,
        size: 0,
        uid: 0,
        gid: 0,
        status,
        message: String::new(),
        target_is_dir: false,
        target_is_symlink: false,
        cur_target: None,
    }
}

#[test]
fn contents_are_deleted_before_their_directory() {
    let files = vec![
        entry("/w/d", true, DBFileStatus::ToDo),
        entry("/w/d/x", false, DBFileStatus::ToDo),
        entry("/w/d/e", true, DBFileStatus::ToDo),
        entry("/w/d/e/y", false, DBFileStatus::ToDo),
    ];
    let sorted = sort_by_file_desc(files);
    let names: Vec<&str> = sorted.iter().map(|e| e.file.as_str()).collect();
    assert_eq!(names, vec!["/w/d/x", "/w/d/e/y", "/w/d/e", "/w/d"]);
}

#[test]
fn rm_job_records_each_outcome() {
    let files = vec![
        entry("/w/a", false, DBFileStatus::ToDo),
        entry("/w/b", false, DBFileStatus::Done),
        entry("/w/c", false, DBFileStatus::ToDo),
        entry("/w/d", false, DBFileStatus::ToDo),
    ];
    let mut job = RmJob::new(files);
    assert_eq!(job.step(), RmStep::Remove(0));
    assert_eq!(job.files[0].file, "/w/d");
    job.removed(RemoveOutcome::NotFound, "");
    assert_eq!(job.step(), RmStep::Remove(1));
    job.removed(RemoveOutcome::Failed, "Permission denied");
    assert_eq!(job.step(), RmStep::Counted);
    assert_eq!(job.step(), RmStep::Remove(3));
    job.skip_current();
    assert_eq!(job.step(), RmStep::Finished);
    assert_eq!(job.num_files, 4);
    let (files, status) = job.finish();
    assert_eq!(status, DBJobStatus::Done);
    assert_eq!(files[0].status, DBFileStatus::Done);
    assert_eq!(files[1].status, DBFileStatus::Error);
    assert_eq!(files[1].message, "(rm) Permission denied");
    assert_eq!(files[3].status, DBFileStatus::Skipped);
}

#[test]
fn aborted_rm_job_stops() {
    let mut job = RmJob::new(vec![entry("/w/a", false, DBFileStatus::ToDo), entry("/w/b", false, DBFileStatus::ToDo)]);
    assert_eq!(job.step(), RmStep::Remove(0));
    job.removed(RemoveOutcome::Removed, "");
    job.abort();
    assert_eq!(job.step(), RmStep::Finished);
    assert_eq!(job.num_files, 1);
    let (files, status) = job.finish();
    assert_eq!(status, DBJobStatus::Aborted);
    assert_eq!(files[1].status, DBFileStatus::ToDo);
}

#[test]
fn rm_paths_are_reached_through_mounted_archives() {
    let archive = fcd::archive_mounter::ArchiveEntry::new("/w/a.zip", "/tmp/m");
    let mut job = RmJob::new(vec![entry("/w/a.zip/f", false, DBFileStatus::ToDo)]);
    job.step();
    assert_eq!(job.actual_file(&[archive]), "/tmp/m/f");
}

#[test]
fn deletion_follows_reverse_path_order() {
    let files = vec![entry("/w/a/x", false, DBFileStatus::ToDo), entry("/w/a-b", false, DBFileStatus::ToDo)];
    let sorted = sort_by_file_desc(files);
    let names: Vec<&str> = sorted.iter().map(|e| e.file.as_str()).collect();
    assert_eq!(names, vec!["/w/a-b", "/w/a/x"]);
}
