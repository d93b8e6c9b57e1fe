use fcd::bookmarks::Bookmarks;

fn lines_of(v: &[&str]) -> Vec<String> {
    v.iter().map(|s| s.to_string()).collect()
}

#[test]
fn bookmarks_read_valid_lines_only() {
    let b = Bookmarks::new(None, &lines_of(&["a:/home/a", "bad", "xy:/nope", "%:/nope", "1:/one:two", "B:"]));
    assert_eq!(b.get('a'), Some("/home/a".to_string()));
    assert_eq!(b.get('1'), Some("/one:two".to_string()));
    assert_eq!(b.get('B'), Some("".to_string()));
    assert_eq!(b.get('x'), None);
    assert_eq!(b.file_lines(), lines_of(&["a:/home/a", "1:/one:two", "B:"]));
}

#[test]
fn bookmarks_insert_then_get() {
    let mut b = Bookmarks::new(Some("/tmp/bm".to_string()), &[]);
    assert!(b.insert('z', "/z"));
    assert!(b.insert('a', "/a"));
    assert_eq!(b.get('z'), Some("/z".to_string()));
    assert_eq!(b.get('a'), Some("/a".to_string()));
    assert_eq!(b.file_lines(), lines_of(&["a:/a", "z:/z"]));
    assert_eq!(b.file(), Some("/tmp/bm".to_string()));
}

#[test]
fn bookmarks_insert_same_path_changes_nothing() {
    let mut b = Bookmarks::new(None, &lines_of(&["a:/a"]));
    assert!(!b.insert('a', "/a"));
    assert!(b.insert('a', "/b"));
    assert_eq!(b.get('a'), Some("/b".to_string()));
}

#[test]
fn bookmarks_insert_rejects_invalid_key() {
    let mut b = Bookmarks::new(None, &[]);
    assert!(!b.insert('%', "/a"));
    assert_eq!(b.get('%'), None);
}

#[test]
fn bookmarks_remove_then_get() {
    let mut b = Bookmarks::new(None, &lines_of(&["a:/a", "b:/b"]));
    assert!(b.remove('a'));
    assert_eq!(b.get('a'), None);
    assert!(!b.remove('a'));
    assert_eq!(b.file_lines(), lines_of(&["b:/b"]));
}

#[test]
fn bookmarks_sorted_by_key() {
    let mut b = Bookmarks::new(None, &lines_of(&["c:/c", "a:/a"]));
    assert!(b.insert('b', "/b"));
    assert_eq!(b.file_lines(), lines_of(&["a:/a", "b:/b", "c:/c"]));
}

#[test]
fn bookmarks_round_trip_through_file_lines() {
    let b = Bookmarks::new(None, &lines_of(&["0:/zero", "Z:/big", "q:/q"]));
    let again = Bookmarks::new(None, &b.file_lines());
    assert_eq!(again.file_lines(), b.file_lines());
}

#[test]
fn duplicate_keys_sort_by_directory() {
    let lines = vec!["a:/z".to_string(), "a:/b".to_string()];
    let mut b = Bookmarks::new(None, &lines);
    assert_eq!(b.get('a'), Some("/z".to_string()));
    assert!(b.insert('b', "/x"));
    assert_eq!(b.file_lines(), vec!["a:/b", "a:/z", "b:/x"]);
    assert_eq!(b.get('a'), Some("/b".to_string()));
}
