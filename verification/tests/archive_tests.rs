use fcd::archive_mounter::{
    archive_parent_map, archive_path_map, unarchive_parent_map, unarchive_path_map, ArchiveEntry,
    ArchiveMounter,
};

fn mounts_of(v: &[(&str, &str)]) -> Vec<ArchiveEntry> {
    v.iter().map(|(a, t)| ArchiveEntry::new(a, t)).collect()
}

#[test]
fn unarchive_path_maps_into_mount_dir() {
    let dirs = mounts_of(&[("/home/u/a.zip", "/tmp/m1")]);
    assert_eq!(unarchive_path_map("/home/u/a.zip/dir/f", &dirs), "/tmp/m1/dir/f");
    assert_eq!(unarchive_path_map("/home/u/a.zip", &dirs), "/tmp/m1");
}

#[test]
fn archive_path_maps_back() {
    let dirs = mounts_of(&[("/home/u/a.zip", "/tmp/m1")]);
    assert_eq!(archive_path_map("/tmp/m1/dir/f", &dirs), "/home/u/a.zip/dir/f");
    assert_eq!(archive_path_map("/tmp/m1", &dirs), "/home/u/a.zip");
}

#[test]
fn path_outside_mounts_is_only_cleaned() {
    let dirs = mounts_of(&[("/a.zip", "/t1")]);
    assert_eq!(unarchive_path_map("/x/./y/", &dirs), "/x/y");
    assert_eq!(archive_path_map("/x/../y", &[]), "/y");
}

#[test]
fn last_mount_wins() {
    let dirs = mounts_of(&[("/a.zip", "/t1"), ("/t1/b.zip", "/t2")]);
    assert_eq!(unarchive_path_map("/t1/b.zip/c", &dirs), "/t2/c");
    assert_eq!(archive_path_map("/t2/c", &dirs), "/t1/b.zip/c");
}

#[test]
fn parent_maps_keep_the_file_name() {
    let dirs = mounts_of(&[("/a.zip", "/t1")]);
    assert_eq!(unarchive_parent_map("/a.zip/b.zip", &dirs), "/t1/b.zip");
    assert_eq!(archive_parent_map("/t1/b.zip", &dirs), "/a.zip/b.zip");
    assert_eq!(unarchive_parent_map("/a.zip", &dirs), "/a.zip");
}

#[test]
fn mounter_needs_an_executable() {
    assert!(ArchiveMounter::new(None, None).is_none());
    let m = ArchiveMounter::new(None, Some("/usr/bin/archivemount".to_string())).unwrap();
    assert_eq!(m.get_exe_name(), "archivemount");
    let m = ArchiveMounter::new(Some("/opt/archivefs".to_string()), Some("/usr/bin/archivemount".to_string()))
        .unwrap();
    assert_eq!(m.exe_name(), Some("archivefs".to_string()));
    assert!(m.get_archive_dirs().is_empty());
}

#[test]
fn mounter_add_lookup_and_umount() {
    let mut m = ArchiveMounter::new(Some("/bin/archivefs".to_string()), None).unwrap();
    m.add_archive("/home/u/a.zip", "/tmp/m1");
    assert_eq!(m.mounted_dir("/home/u/a.zip"), Some("/tmp/m1".to_string()));
    assert_eq!(m.mounted_dir("/home/u/b.zip"), None);
    assert_eq!(m.unarchive_path("/home/u/a.zip/x"), "/tmp/m1/x");
    assert_eq!(m.archive_path("/tmp/m1/x"), "/home/u/a.zip/x");
    assert_eq!(m.mount_cwd("/home/u/a.zip"), Some("/home/u".to_string()));
    let a = m.umount_archive("/home/u/a.zip").unwrap();
    assert_eq!(a.temp_dir, "/tmp/m1");
    assert_eq!(a.cwd, Some("/home/u".to_string()));
    assert!(m.umount_archive("/home/u/a.zip").is_none());
    assert!(m.get_archive_dirs().is_empty());
}

#[test]
fn mounter_umount_parents_nested_first() {
    let mut m = ArchiveMounter::new(Some("/bin/archivefs".to_string()), None).unwrap();
    m.add_archive("/d/a.zip", "/t1");
    m.add_archive("/d/a.zip/b.zip", "/t2");
    m.add_archive("/e/c.zip", "/t3");
    let actions = m.umount_parents(&["/d".to_string()]);
    let dirs: Vec<String> = actions.iter().map(|a| a.temp_dir.clone()).collect();
    assert_eq!(dirs, vec!["/t2".to_string(), "/t1".to_string()]);
    assert_eq!(m.get_archive_dirs().len(), 1);
    assert_eq!(m.mounted_dir("/e/c.zip"), Some("/t3".to_string()));
}

#[test]
fn mounter_umount_unrelated_keeps_shown() {
    let mut m = ArchiveMounter::new(Some("/bin/archivefs".to_string()), None).unwrap();
    m.add_archive("/d/a.zip", "/t1");
    m.add_archive("/e/c.zip", "/t3");
    let actions = m.umount_unrelated(&["/t1/sub".to_string(), "/home".to_string()]);
    assert_eq!(actions.len(), 1);
    assert_eq!(actions[0].temp_dir, "/t3");
    assert_eq!(m.mounted_dir("/d/a.zip"), Some("/t1".to_string()));
    let rest = m.umount_all();
    assert_eq!(rest.len(), 1);
    assert_eq!(rest[0].temp_dir, "/t1");
    assert!(m.get_archive_dirs().is_empty());
}
