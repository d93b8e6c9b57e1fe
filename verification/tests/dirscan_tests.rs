use fcd::database::{DBEntriesEntry, DBFileStatus};
use fcd::dirscan::{DirScan, EntryKind, EntryMetadata, ReadMetadata};

fn selected(file: &str, is_dir: bool, size: u64) -> DBEntriesEntry {
    DBEntriesEntry {
        id: 0,
        job_id: 0,
        file: file.to_string(),
        is_file: !is_dir,
        is_dir,
        is_symlink: false,
        size,
        uid: 1,
        gid: 2,
    }
}

fn file_kind() -> EntryKind {
    EntryKind { is_file: true, is_dir: false, is_symlink: false }
}

fn dir_kind() -> EntryKind {
    EntryKind { is_file: false, is_dir: true, is_symlink: false }
}

fn meta(size: u64) -> EntryMetadata {
    EntryMetadata { size, uid: 10, gid: 20 }
}

#[test]
fn scan_lists_files_and_directories_depth_first() {
    let entries = vec![selected("/w/a.txt", false, 5), selected("/w/d", true, 4096)];
    let mut scan = DirScan::new("/w", entries, vec![], ReadMetadata::Yes);
    assert!(!scan.is_done());
    assert_eq!(scan.next_entry(), None);
    assert_eq!(scan.next_entry(), Some("/w/d".to_string()));
    assert_eq!(scan.depth(), 1);
    assert_eq!(scan.scan_entry("/w/d/x", Ok(file_kind()), Some(Ok(meta(7)))), None);
    assert_eq!(scan.scan_entry("/w/d/e", Ok(dir_kind()), Some(Ok(meta(4096)))), Some("/w/d/e".to_string()));
    assert_eq!(scan.info().current, "/w/d");
    scan.dir_done();
    scan.dir_done();
    assert!(scan.is_done());
    assert_eq!(scan.info().num_files, 4);
    assert_eq!(scan.info().total_size, Some(5 + 4096 + 7 + 4096));
    let listed = scan.into_result();
    let files: Vec<&str> = listed.iter().map(|e| e.file.as_str()).collect();
    assert_eq!(files, vec!["/w/a.txt", "/w/d", "/w/d/x", "/w/d/e"]);
    assert!(listed.iter().all(|e| e.status == DBFileStatus::ToDo));
    assert_eq!(listed[0].uid, 1);
    assert_eq!(listed[2].size, 7);
    assert_eq!(listed[2].uid, 10);
    assert_eq!(listed[2].gid, 20);
    assert!(listed[3].is_dir);
}

#[test]
fn scan_without_metadata_has_no_total() {
    let entries = vec![selected("/w/d", true, 0)];
    let mut scan = DirScan::new("/w", entries, vec![], ReadMetadata::No);
    assert_eq!(scan.info().total_size, None);
    assert!(scan.next_entry().is_some());
    assert_eq!(scan.scan_entry("/w/d/x", Ok(file_kind()), None), None);
    scan.dir_done();
    assert_eq!(scan.info().total_size, None);
    let listed = scan.into_result();
    assert_eq!(listed.len(), 2);
    assert_eq!(listed[1].size, 0);
    assert_eq!(listed[1].uid, 0);
}

#[test]
fn skipping_a_directory_restores_counts_and_marks_it() {
    let entries = vec![selected("/w/d", true, 100)];
    let mut scan = DirScan::new("/w", entries, vec![], ReadMetadata::Yes);
    scan.next_entry();
    let (files_at_entry, size_at_entry) = (scan.info().num_files, scan.info().total_size);
    scan.scan_entry("/w/d/x", Ok(file_kind()), Some(Ok(meta(7))));
    scan.scan_entry("/w/d/y", Ok(file_kind()), Some(Ok(meta(8))));
    assert_eq!(scan.info().num_files, 3);
    scan.skip();
    assert_eq!(scan.depth(), 0);
    assert_eq!(scan.info().num_files, files_at_entry);
    assert_eq!(scan.info().total_size, size_at_entry);
    assert!(scan.is_done());
    let listed = scan.into_result();
    assert_eq!(listed.len(), 1);
    assert_eq!(listed[0].file, "/w/d");
    assert_eq!(listed[0].status, DBFileStatus::Skipped);
    assert!(listed[0].is_dir);
    assert_eq!(listed[0].size, 0);
}

#[test]
fn skipping_at_the_job_entries_ends_the_scan() {
    let entries = vec![selected("/w/a", false, 3), selected("/w/b", false, 4)];
    let mut scan = DirScan::new("/w", entries, vec![], ReadMetadata::Yes);
    scan.next_entry();
    scan.skip();
    assert!(scan.is_done());
    assert_eq!(scan.info().num_files, 1);
    assert_eq!(scan.info().total_size, Some(0));
    let listed = scan.into_result();
    assert_eq!(listed.len(), 1);
    assert_eq!(listed[0].file, "/w");
    assert_eq!(listed[0].status, DBFileStatus::Skipped);
}

#[test]
fn unreadable_entries_are_recorded_as_errors() {
    let entries = vec![selected("/w/d", true, 0)];
    let mut scan = DirScan::new("/w", entries, vec![], ReadMetadata::Yes);
    scan.next_entry();
    scan.scan_entry("/w/d/bad", Err("denied".to_string()), None);
    scan.scan_entry("/w/d/gone", Ok(file_kind()), Some(Err("vanished".to_string())));
    assert_eq!(scan.info().num_files, 3);
    assert_eq!(scan.info().total_size, Some(0));
    scan.dir_done();
    let listed = scan.into_result();
    assert_eq!(listed[1].status, DBFileStatus::Error);
    assert_eq!(listed[1].message, "(dirscan) denied");
    assert_eq!(listed[2].message, "(dirscan) vanished");
    assert!(!listed[2].is_file);
}

#[test]
fn unreadable_directories_are_marked_failed() {
    let entries = vec![selected("/w/d", true, 0), selected("/w/g", true, 0)];
    let mut scan = DirScan::new("/w", entries, vec![], ReadMetadata::No);
    scan.next_entry();
    scan.scan_entry("/w/d/e", Ok(dir_kind()), None);
    scan.dir_failed("no access");
    assert_eq!(scan.depth(), 1);
    scan.dir_done();
    scan.next_entry();
    scan.dir_failed("no entry");
    assert!(scan.is_done());
    let listed = scan.into_result();
    assert_eq!(listed.len(), 3);
    assert_eq!(listed[0].status, DBFileStatus::ToDo);
    assert_eq!(listed[1].file, "/w/d/e");
    assert_eq!(listed[1].status, DBFileStatus::Error);
    assert_eq!(listed[1].message, "no access");
    assert_eq!(listed[2].file, "/w/g");
    assert_eq!(listed[2].status, DBFileStatus::Error);
    assert_eq!(listed[2].message, "(dirscan) no entry");
}

#[test]
fn entries_inside_mounted_archives_are_listed_as_archive_paths() {
    let archive = fcd::archive_mounter::ArchiveEntry::new("/w/a.zip", "/tmp/m1");
    let entries = vec![selected("/w/a.zip", true, 0)];
    let mut scan = DirScan::new("/w", entries, vec![archive], ReadMetadata::No);
    assert_eq!(scan.next_entry(), Some("/tmp/m1".to_string()));
    assert_eq!(scan.scan_entry("/tmp/m1/f", Ok(file_kind()), None), None);
    scan.dir_done();
    let listed = scan.into_result();
    assert_eq!(listed[1].file, "/w/a.zip/f");
}
