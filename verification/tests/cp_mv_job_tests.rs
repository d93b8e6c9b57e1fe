use fcd::cp_mv_entry::DirTask;
use fcd::dialogs::WorkerEvent;
use fcd::cp_mv_entry::{EntryAction as A, EntryEvent as E};
use fcd::cp_mv::{
    chown_next, conflict_message, copy_kind, group_only_fails, removes_source, rename_first, ChownNext,
    ConflictAction, CopyKind, DlgCpMvType, IoFailure,
};
use fcd::cp_mv_job::{copy_entry, sort_by_file, CpMvJob, DirStep, FileOutcome, FileStep};
use fcd::database::{DBDirListEntry, DBFileEntry, DBFileStatus, DBJobStatus, DBRenameDirEntry, DBSkipDirEntry};

fn entry(file: &str, is_dir: bool, size: u64, status: DBFileStatus) -> DBFileEntry {
    DBFileEntry {
        id: 0,
        job_id: 3,
        file: file.to_string(),
        is_file: !is_dir,
        is_dir,
        is_symlink: false,
        size,
        uid: 0,
        gid: 0,
        status,
        message: String::new(),
        target_is_dir: false,
        target_is_symlink: false,
        cur_target: None,
    }
}

fn names(files: &[DBFileEntry]) -> Vec<&str> {
    files.iter().map(|e| e.file.as_str()).collect()
}

#[test]
fn files_are_sorted_by_path() {
    let files = vec![
        entry("/w/b", false, 1, DBFileStatus::ToDo),
        entry("/w/a/z", false, 1, DBFileStatus::ToDo),
        entry("/w/a", true, 0, DBFileStatus::ToDo),
        entry("/w/ä", false, 1, DBFileStatus::ToDo),
        entry("/w/B", false, 1, DBFileStatus::ToDo),
    ];
    let sorted = sort_by_file(files);
    assert_eq!(names(&sorted), vec!["/w/B", "/w/a", "/w/a/z", "/w/b", "/w/ä"]);
}

#[test]
fn job_counts_ended_files_and_processes_the_rest() {
    let files = vec![
        entry("/w/c", false, 30, DBFileStatus::ToDo),
        entry("/w/a", false, 10, DBFileStatus::Done),
        entry("/w/b", false, 20, DBFileStatus::ToDo),
    ];
    let mut job = CpMvJob::new(3, DlgCpMvType::Cp, files, vec![], vec![], vec![]);
    assert_eq!(job.file_step(), FileStep::Counted);
    assert_eq!((job.num_files, job.total_bytes), (1, 10));
    assert_eq!(job.file_step(), FileStep::Process(1));
    assert_eq!(job.current().file, "/w/b");
    job.start_current(false, false, "/t/b".to_string());
    assert_eq!(job.current().status, DBFileStatus::InProgress);
    assert_eq!(job.current().cur_target.as_deref(), Some("/t/b"));
    job.finish_current(FileOutcome::Ended(DBFileStatus::Done, DBJobStatus::InProgress));
    assert_eq!((job.num_files, job.total_bytes), (2, 30));
    assert_eq!(job.file_step(), FileStep::Process(2));
    job.finish_current(FileOutcome::Failed("copy".to_string(), "disk full".to_string()));
    assert_eq!((job.num_files, job.total_bytes), (3, 60));
    assert_eq!(job.file_step(), FileStep::NoMoreFiles);
    assert_eq!(job.dir_step(), DirStep::NoMoreDirs);
    let result = job.finish();
    assert_eq!(result.status, DBJobStatus::Done);
    assert_eq!(result.files[1].status, DBFileStatus::Done);
    assert_eq!(result.files[2].status, DBFileStatus::Error);
    assert_eq!(result.files[2].message, "(copy) disk full");
}

#[test]
fn abort_ends_the_files_but_not_the_directories() {
    let files = vec![entry("/w/a", false, 5, DBFileStatus::ToDo), entry("/w/b", false, 5, DBFileStatus::ToDo)];
    let mut job = CpMvJob::new(3, DlgCpMvType::Mv, files, vec![], vec![], vec![]);
    assert_eq!(job.file_step(), FileStep::Process(0));
    job.push_dir("/t/a".to_string(), true);
    assert_eq!(job.dirs.len(), 1);
    job.finish_current(FileOutcome::Ended(DBFileStatus::InProgress, DBJobStatus::Aborted));
    assert!(job.files_ended);
    assert_eq!(job.num_files, 0);
    assert_eq!(job.status, DBJobStatus::Aborted);
    assert_eq!(job.dir_step(), DirStep::Process(0));
    job.finish_dir(FileOutcome::Ended(DBFileStatus::Done, DBJobStatus::InProgress));
    assert_eq!(job.dir_step(), DirStep::NoMoreDirs);
    let result = job.finish();
    assert_eq!(result.status, DBJobStatus::Aborted);
    assert_eq!(result.files[1].status, DBFileStatus::ToDo);
    assert_eq!(result.dirs[0].status, DBFileStatus::Done);
    assert_eq!(result.dirs[0].cur_file, "/w/a");
    assert!(result.dirs[0].new_dir);
}

#[test]
fn directories_are_finished_last_first() {
    let dir = |f: &str, status: DBFileStatus| DBDirListEntry {
        id: 0,
        job_id: 3,
        file: entry(f, true, 0, DBFileStatus::Done),
        cur_file: f.to_string(),
        cur_target: f.replace("/w", "/t"),
        new_dir: false,
        status,
        message: String::new(),
    };
    let dirs = vec![dir("/w/a", DBFileStatus::ToDo), dir("/w/a/b", DBFileStatus::Done), dir("/w/a/c", DBFileStatus::ToDo)];
    let mut job = CpMvJob::new(3, DlgCpMvType::Mv, vec![], dirs, vec![], vec![]);
    assert_eq!(job.file_step(), FileStep::NoMoreFiles);
    assert_eq!(job.dir_step(), DirStep::Process(2));
    job.finish_dir(FileOutcome::Failed("rmdir".to_string(), "not empty".to_string()));
    assert_eq!(job.dir_step(), DirStep::Passed);
    assert_eq!(job.dir_step(), DirStep::Process(0));
    job.finish_dir(FileOutcome::Ended(DBFileStatus::Skipped, DBJobStatus::Aborted));
    assert_eq!(job.dir_step(), DirStep::NoMoreDirs);
    let result = job.finish();
    assert_eq!(result.status, DBJobStatus::Aborted);
    assert_eq!(result.dirs[2].message, "(rmdir) not empty");
    assert_eq!(result.dirs[0].status, DBFileStatus::Skipped);
}

#[test]
fn plans_follow_moved_and_renamed_directories() {
    let files = vec![
        entry("/w/d", true, 0, DBFileStatus::ToDo),
        entry("/w/d/f", false, 1, DBFileStatus::ToDo),
        entry("/w/e", false, 1, DBFileStatus::ToDo),
    ];
    let skip = vec![DBSkipDirEntry { id: 9, job_id: 3, file: "/w/old".to_string() }];
    let rename = vec![DBRenameDirEntry {
        id: 4,
        job_id: 3,
        existing_target: "/t/d".to_string(),
        cur_target: "/t/d.fcdnew0".to_string(),
    }];
    let mut job = CpMvJob::new(3, DlgCpMvType::Cp, files, vec![], rename, skip);
    assert_eq!(job.file_step(), FileStep::Process(0));
    let plan = job.plan_current("/w", "/t", false, &[]).unwrap();
    assert_eq!(plan.rel_file, "d");
    assert!(!plan.skip_dir);
    assert_eq!(plan.skip_popped, vec![9]);
    assert_eq!(plan.cur_target, "/t/d.fcdnew0/");
    assert!(plan.rename_popped.is_empty());
    job.finish_current(FileOutcome::Ended(DBFileStatus::Done, DBJobStatus::InProgress));
    assert_eq!(job.file_step(), FileStep::Process(1));
    let plan = job.plan_current("/w", "/t", false, &[]).unwrap();
    assert_eq!(plan.cur_target, "/t/d.fcdnew0/f");
    assert_eq!(plan.actual_file, "/w/d/f");
    job.finish_current(FileOutcome::Ended(DBFileStatus::Done, DBJobStatus::InProgress));
    assert_eq!(job.file_step(), FileStep::Process(2));
    let plan = job.plan_current("/w", "/t", false, &[]).unwrap();
    assert_eq!(plan.cur_target, "/t/e");
    assert_eq!(plan.rename_popped, vec![4]);
    assert!(job.rename_stack.is_empty());
}

#[test]
fn plans_into_a_new_name_drop_the_first_component() {
    let files = vec![entry("/w/d/f", false, 1, DBFileStatus::ToDo)];
    let mut job = CpMvJob::new(3, DlgCpMvType::Cp, files, vec![], vec![], vec![]);
    job.file_step();
    let plan = job.plan_current("/w", "/t/copy", true, &[]).unwrap();
    assert_eq!(plan.cur_target, "/t/copy/f");
    let mut job = CpMvJob::new(3, DlgCpMvType::Cp, vec![entry("rel", false, 1, DBFileStatus::ToDo)], vec![], vec![], vec![]);
    job.file_step();
    assert!(job.plan_current("/w", "/t", false, &[]).is_none());
}

#[test]
fn moved_directories_skip_their_contents() {
    let files = vec![entry("/w/d", true, 0, DBFileStatus::ToDo), entry("/w/d/f", false, 1, DBFileStatus::ToDo)];
    let mut job = CpMvJob::new(3, DlgCpMvType::Mv, files, vec![], vec![], vec![]);
    job.file_step();
    job.plan_current("/w", "/t", false, &[]).unwrap();
    job.push_moved_dir();
    assert_eq!(job.skip_stack.len(), 1);
    job.finish_current(FileOutcome::Ended(DBFileStatus::Done, DBJobStatus::InProgress));
    job.file_step();
    let plan = job.plan_current("/w", "/t", false, &[]).unwrap();
    assert!(plan.skip_dir);
}

#[test]
fn resumed_and_conflict_messages() {
    let mut e = entry("/w/a", false, 1, DBFileStatus::InProgress);
    e.cur_target = Some("/t/a.fcdnew1".to_string());
    e.message = "Renamed to a.fcdnew1".to_string();
    let mut job = CpMvJob::new(3, DlgCpMvType::Cp, vec![e], vec![], vec![], vec![]);
    job.file_step();
    let plan = job.plan_current("/w", "/t", false, &[]).unwrap();
    assert_eq!(plan.cur_target, "/t/a.fcdnew1");
    job.note_resumed();
    assert_eq!(job.current().message, "Resumed -- Renamed to a.fcdnew1");
    job.set_message(conflict_message(ConflictAction::Skip, ""));
    assert_eq!(job.current().message, "Target exists");
    assert_eq!(conflict_message(ConflictAction::RenameCopy, "a.fcdnew0"), "Renamed to a.fcdnew0");
    assert_eq!(conflict_message(ConflictAction::SameFile, ""), "Same file");
    assert_eq!(conflict_message(ConflictAction::Overwrite, ""), "Overwrite");
}

#[test]
fn copy_kind_and_owner_decisions() {
    assert_eq!(copy_kind(true, true, false), CopyKind::Symlink);
    assert_eq!(copy_kind(false, true, false), CopyKind::Directory);
    assert_eq!(copy_kind(false, false, true), CopyKind::File);
    assert_eq!(copy_kind(false, false, false), CopyKind::Special);
    assert!(rename_first(DlgCpMvType::Mv, false));
    assert!(!rename_first(DlgCpMvType::Mv, true));
    assert!(!rename_first(DlgCpMvType::Cp, false));
    assert!(removes_source(DlgCpMvType::Mv, true, false));
    assert!(!removes_source(DlgCpMvType::Mv, false, false));
    assert!(!removes_source(DlgCpMvType::Mv, true, true));
    assert_eq!(chown_next(None), ChownNext::Done);
    assert_eq!(chown_next(Some(IoFailure::PermissionDenied)), ChownNext::GroupOnly);
    assert_eq!(chown_next(Some(IoFailure::Unsupported)), ChownNext::Done);
    assert_eq!(chown_next(Some(IoFailure::Other)), ChownNext::Fail);
    assert!(!group_only_fails(Some(IoFailure::PermissionDenied)));
    assert!(group_only_fails(Some(IoFailure::Other)));
}

#[test]
fn copied_entries_are_equal() {
    let mut e = entry("/w/a", false, 7, DBFileStatus::Error);
    e.message = "m".to_string();
    e.cur_target = Some("/t".to_string());
    let c = copy_entry(&e);
    assert_eq!(c.file, e.file);
    assert_eq!(c.message, "m");
    assert_eq!(c.cur_target, e.cur_target);
    assert_eq!(c.size, 7);
}

#[test]
fn files_are_sorted_by_path_components() {
    let files = vec![entry("/w/a-b", false, 1, DBFileStatus::ToDo), entry("/w/a/x", false, 1, DBFileStatus::ToDo)];
    let sorted = sort_by_file(files);
    assert_eq!(names(&sorted), vec!["/w/a/x", "/w/a-b"]);
}

fn task_for(file: DBFileEntry, mode: DlgCpMvType, on_conflict: fcd::database::OnConflict) -> (CpMvJob, fcd::cp_mv_entry::EntryTask) {
    let mut job = CpMvJob::new(1, mode, vec![file], Vec::new(), Vec::new(), Vec::new());
    assert_eq!(job.file_step(), FileStep::Process(0));
    let task = fcd::cp_mv_entry::EntryTask::new(
        &job,
        on_conflict,
        false,
        "/t/f".to_string(),
        "/w/f".to_string(),
        "/t/f".to_string(),
    );
    (job, task)
}

#[test]
fn entry_steps_copy_a_new_file() {
    let (_job, mut task) = task_for(entry("/w/f", false, 5, DBFileStatus::ToDo), DlgCpMvType::Cp, fcd::database::OnConflict::Skip);
    assert_eq!(task.step(E::Done, &[]), A::CheckTarget);
    assert_eq!(task.step(E::Target { exists: false, is_dir: false, is_symlink: false }, &[]), A::Start);
    assert_eq!(task.step(E::Done, &[]), A::PollUser);
    assert_eq!(task.step(E::User(None), &[]), A::OpenCopy(false));
    assert_eq!(task.step(E::Done, &[]), A::PollUser);
    assert_eq!(task.step(E::User(None), &[]), A::CopyBlock);
    assert_eq!(task.step(E::Copied(false), &[]), A::PollUser);
    assert_eq!(task.step(E::User(Some(WorkerEvent::Suspend)), &[]), A::AwaitResume);
    assert_eq!(task.step(E::Done, &[]), A::CopyBlock);
    assert_eq!(task.step(E::Copied(true), &[]), A::Lchown(true));
    assert_eq!(task.step(E::Chown(Some(IoFailure::PermissionDenied)), &[]), A::Lchown(false));
    assert_eq!(task.step(E::Chown(Some(IoFailure::Unsupported)), &[]), A::CopyStat);
    assert_eq!(task.step(E::Done, &[]), A::Finish(DBFileStatus::Done, DBJobStatus::InProgress));
    assert_eq!(task.step(E::Done, &[]), A::Nothing);
}

#[test]
fn entry_steps_rename_existing_target_to_a_free_name() {
    let (_job, mut task) =
        task_for(entry("/w/f", false, 5, DBFileStatus::ToDo), DlgCpMvType::Mv, fcd::database::OnConflict::RenameExisting);
    assert_eq!(task.step(E::Done, &[]), A::CheckTarget);
    assert_eq!(task.step(E::Target { exists: true, is_dir: false, is_symlink: false }, &[]), A::CheckSameFile);
    assert_eq!(task.step(E::Same(false), &[]), A::CheckProbe);
    assert_eq!(task.probe, "/t/f");
    assert_eq!(task.step(E::Exists(true), &[]), A::CheckProbe);
    assert_eq!(task.probe, "/t/f.fcdsave0");
    assert_eq!(task.step(E::Exists(true), &[]), A::CheckProbe);
    assert_eq!(task.probe, "/t/f.fcdsave1");
    assert_eq!(task.step(E::Exists(false), &[]), A::CheckSameFile);
    assert_eq!(task.step(E::Same(false), &[]), A::RenameExisting);
    assert_eq!(task.existing, "/t/f.fcdsave1");
    assert_eq!(task.step(E::Done, &[]), A::SetMessage);
    assert_eq!(task.message, "Renamed to f.fcdsave1");
    assert_eq!(task.step(E::Done, &[]), A::Start);
    assert_eq!(task.step(E::Done, &[]), A::PollUser);
    assert_eq!(task.step(E::User(None), &[]), A::TryMove);
    assert_eq!(task.step(E::Failed, &[]), A::OpenCopy(false));
    assert_eq!(task.step(E::Failed, &[]), A::Fail(fcd::cp_mv_entry::FailStep::Copy));
    assert_eq!(fcd::cp_mv_entry::fail_label(fcd::cp_mv_entry::FailStep::Copy), "copy");
}

#[test]
fn entry_steps_skip_same_file_and_resume() {
    let (_job, mut task) = task_for(entry("/w/f", false, 5, DBFileStatus::ToDo), DlgCpMvType::Cp, fcd::database::OnConflict::Overwrite);
    task.step(E::Done, &[]);
    assert_eq!(task.step(E::Target { exists: true, is_dir: false, is_symlink: false }, &[]), A::CheckSameFile);
    assert_eq!(task.step(E::Same(true), &[]), A::SetMessage);
    assert_eq!(task.message, "Same file");
    assert_eq!(task.step(E::Done, &[]), A::Finish(DBFileStatus::Skipped, DBJobStatus::InProgress));

    let (_job, mut task) =
        task_for(entry("/w/f", false, 5, DBFileStatus::InProgress), DlgCpMvType::Cp, fcd::database::OnConflict::Overwrite);
    assert_eq!(task.step(E::Done, &[]), A::CheckTarget);
    assert_eq!(task.step(E::Target { exists: true, is_dir: false, is_symlink: false }, &[]), A::NoteResumed);
    assert_eq!(task.step(E::Done, &[]), A::PollUser);
    assert_eq!(task.step(E::User(None), &[]), A::OpenCopy(true));
}

#[test]
fn entry_steps_user_skip_and_abort() {
    let (_job, mut task) = task_for(entry("/w/f", false, 5, DBFileStatus::ToDo), DlgCpMvType::Cp, fcd::database::OnConflict::Skip);
    task.step(E::Done, &[]);
    assert_eq!(task.step(E::Target { exists: false, is_dir: false, is_symlink: false }, &[]), A::Start);
    assert_eq!(task.step(E::Done, &[]), A::PollUser);
    assert_eq!(task.step(E::User(Some(WorkerEvent::Skip)), &[]), A::DropTarget);
    assert_eq!(task.step(E::Done, &[]), A::Finish(DBFileStatus::Skipped, DBJobStatus::InProgress));

    let (mut job, mut task) = task_for(entry("/w/f", false, 5, DBFileStatus::ToDo), DlgCpMvType::Cp, fcd::database::OnConflict::Skip);
    task.step(E::Done, &[]);
    task.step(E::Target { exists: false, is_dir: false, is_symlink: false }, &[]);
    task.step(E::Done, &[]);
    assert_eq!(task.step(E::User(None), &[]), A::OpenCopy(false));
    assert_eq!(task.step(E::Done, &[]), A::PollUser);
    assert_eq!(task.step(E::User(Some(WorkerEvent::Abort)), &[]), A::DropTarget);
    assert_eq!(task.step(E::Done, &[]), A::Finish(DBFileStatus::InProgress, DBJobStatus::Aborted));
    job.finish_current(FileOutcome::Ended(DBFileStatus::InProgress, DBJobStatus::Aborted));
    assert!(job.files_ended);
    assert_eq!(job.dir_step(), DirStep::NoMoreDirs);
    assert_eq!(job.finish().status, DBJobStatus::Aborted);
}

#[test]
fn dir_steps_set_metadata_and_remove_moved_source() {
    let dir = DBDirListEntry {
        id: 0,
        job_id: 1,
        file: entry("/w/d", true, 0, DBFileStatus::ToDo),
        cur_file: "/w/d".to_string(),
        cur_target: "/t/d".to_string(),
        new_dir: true,
        status: DBFileStatus::ToDo,
        message: String::new(),
    };
    let job = CpMvJob::new(1, DlgCpMvType::Mv, Vec::new(), vec![dir], Vec::new(), Vec::new());
    let mut task = DirTask::new(&job, 0, &[]);
    assert_eq!(task.actual_target, "/t/d");
    assert_eq!(task.step(E::Done), A::PollUser);
    assert_eq!(task.step(E::User(None)), A::Lchown(true));
    assert_eq!(task.step(E::Chown(None)), A::CopyStat);
    assert_eq!(task.step(E::Done), A::RemoveSourceDir);
    assert_eq!(task.step(E::Done), A::Finish(DBFileStatus::Done, DBJobStatus::InProgress));
    let mut task = DirTask::new(&job, 0, &[]);
    task.step(E::Done);
    assert_eq!(task.step(E::User(Some(WorkerEvent::Abort))), A::Finish(DBFileStatus::InProgress, DBJobStatus::Aborted));
}
