use fcd::entry::{Entry, HiddenFiles, Palette, SortBy, SortOrder};
use fcd::fnmatch::RegexMatcher;
use fcd::panel::{Command, FilePanelState, PanelAction, PanelKey, PanelMouse, TagOp};

fn panel_entry(name: &str, is_dir: bool) -> Entry {
    let ext = fcd::names::tar_suffix(name);
    Entry {
        file: format!("/d/{}", name),
        file_name: name.to_string(),
        key: fcd::names::natsort_key(name),
        extension: fcd::names::natsort_key(&ext),
        label: name.to_string(),
        palette: if is_dir { Palette::Directory } else { Palette::Panel },
        is_dir,
        modified: None,
        shown_mtime: String::new(),
        size: Some(1),
        shown_size: String::new(),
        details: String::new(),
        link_target: None,
    }
}

fn panel_with(names: &[(&str, bool)], height: usize) -> FilePanelState {
    let mut p = FilePanelState::new(height, true);
    let list: Vec<Entry> = names.iter().map(|(n, d)| panel_entry(n, *d)).collect();
    p.set_file_list(list, None);
    p
}

fn shown_names(p: &FilePanelState) -> Vec<String> {
    p.shown.iter().map(|e| e.file_name.clone()).collect()
}

fn tagged_names(p: &FilePanelState) -> Vec<String> {
    p.tagged.iter().map(|e| e.file_name.clone()).collect()
}

#[test]
fn panel_lists_sorted_directories_first() {
    let p = panel_with(&[("b.txt", false), ("z", true), ("a.txt", false), (".hidden", false)], 10);
    assert_eq!(shown_names(&p), vec!["z", "a.txt", "b.txt"]);
    assert_eq!(p.cursor, 0);
}

#[test]
fn panel_toggle_hidden_and_filter() {
    let mut p = panel_with(&[("b.txt", false), ("a.txt", false), (".hidden", false)], 10);
    p.toggle_hidden(None);
    assert_eq!(p.hidden_files, HiddenFiles::Show);
    assert_eq!(shown_names(&p), vec![".hidden", "a.txt", "b.txt"]);
    assert!(p.set_filter("b", None));
    assert_eq!(shown_names(&p), vec!["b.txt"]);
    assert!(!p.set_filter("b", None));
    assert!(p.escape(None));
    assert_eq!(shown_names(&p).len(), 3);
    assert!(!p.escape(None));
}

#[test]
fn panel_cursor_moves_and_stays_on_entries() {
    let mut p = panel_with(&[("a", false), ("b", false), ("c", false)], 10);
    assert!(p.handle_down());
    assert!(p.handle_down());
    assert!(!p.handle_down());
    assert_eq!(p.cursor, 2);
    assert!(p.handle_up());
    assert_eq!(p.cursor, 1);
    assert!(p.handle_home());
    assert!(!p.handle_up());
    assert!(p.handle_end());
    assert_eq!(p.cursor, 2);
}

#[test]
fn panel_page_moves() {
    let names: Vec<(String, bool)> = (0..20).map(|i| (format!("f{:02}", i), false)).collect();
    let refs: Vec<(&str, bool)> = names.iter().map(|(n, d)| (n.as_str(), *d)).collect();
    let mut p = panel_with(&refs, 5);
    assert!(p.handle_page_down());
    assert_eq!(p.cursor, 4);
    assert_eq!(p.first_line, 4);
    p.handle_page_down();
    p.handle_page_down();
    p.handle_page_down();
    p.handle_page_down();
    assert_eq!(p.cursor, 19);
    assert_eq!(p.first_line, 15);
    assert!(p.handle_page_up());
    assert_eq!(p.cursor, 15);
    assert_eq!(p.first_line, 11);
}

#[test]
fn panel_empty_list_keys() {
    let mut p = FilePanelState::new(5, true);
    let out = p.handle_key(PanelKey::Down);
    assert!(matches!(out.action, PanelAction::Nothing));
    assert!(!out.selection_changed);
    assert_eq!(p.cursor, 0);
    let out = p.handle_key(PanelKey::Char('r'));
    assert!(matches!(out.action, PanelAction::Nothing));
    let out = p.handle_key(PanelKey::F(5));
    assert!(matches!(out.action, PanelAction::Nothing));
}

#[test]
fn panel_tag_toggle_twice_restores() {
    let mut p = panel_with(&[("a", false), ("b", false)], 10);
    p.tag_current(TagOp::Toggle);
    assert_eq!(tagged_names(&p), vec!["a"]);
    p.tag_current(TagOp::Toggle);
    assert!(p.tagged.is_empty());
}

#[test]
fn panel_space_tags_and_moves_down() {
    let mut p = panel_with(&[("a", false), ("b", false), ("c", false)], 10);
    let out = p.handle_key(PanelKey::Char(' '));
    assert!(out.selection_changed);
    assert_eq!(p.cursor, 1);
    p.handle_key(PanelKey::Char('t'));
    assert_eq!(tagged_names(&p), vec!["a", "b"]);
    p.handle_key(PanelKey::Char('u'));
    assert_eq!(tagged_names(&p), vec!["a", "b"]);
    p.handle_key(PanelKey::Up);
    p.handle_key(PanelKey::Char('u'));
    assert_eq!(tagged_names(&p), vec!["a"]);
}

#[test]
fn panel_tag_all_untag_all_toggle_all() {
    let mut p = panel_with(&[("a", false), ("b", false), ("c", false)], 10);
    p.tag_current(TagOp::Tag);
    p.handle_key(PanelKey::Char('*'));
    assert_eq!(tagged_names(&p), vec!["b", "c"]);
    p.handle_key(PanelKey::Char('T'));
    assert_eq!(tagged_names(&p).len(), 3);
    p.handle_key(PanelKey::Char('U'));
    assert!(p.tagged.is_empty());
}

#[test]
fn panel_tag_by_glob() {
    let mut p = panel_with(&[("a.txt", false), ("b.TXT", false), ("c.rs", false)], 10);
    let g = RegexMatcher::glob("*.txt").unwrap();
    p.tag_glob(&g, TagOp::Tag);
    assert_eq!(tagged_names(&p), vec!["a.txt", "b.TXT"]);
    let g = RegexMatcher::glob("a*").unwrap();
    p.tag_glob(&g, TagOp::Untag);
    assert_eq!(tagged_names(&p), vec!["b.TXT"]);
}

#[test]
fn panel_selected_files_are_tagged_or_current() {
    let mut p = panel_with(&[("a", false), ("b", false)], 10);
    let sel: Vec<String> = p.get_selected_files().iter().map(|e| e.file_name.clone()).collect();
    assert_eq!(sel, vec!["a"]);
    p.handle_down();
    p.tag_current(TagOp::Tag);
    p.handle_up();
    p.tag_current(TagOp::Tag);
    let sel: Vec<String> = p.get_selected_files().iter().map(|e| e.file_name.clone()).collect();
    assert_eq!(sel, vec!["a", "b"]);
}

#[test]
fn panel_delete_question() {
    let mut p = panel_with(&[("a", false), ("b", false)], 10);
    match p.handle_key(PanelKey::F(8)).action {
        PanelAction::Question(title, q, files) => {
            assert_eq!(title, "Delete");
            assert_eq!(q, "Delete a?");
            assert_eq!(files.len(), 1);
        }
        other => panic!("unexpected {:?}", other),
    }
    p.handle_key(PanelKey::Char('T'));
    match p.handle_key(PanelKey::Char('8')).action {
        PanelAction::Question(_, q, files) => {
            assert_eq!(q, "Delete 2 files/directories?");
            assert_eq!(files.len(), 2);
        }
        other => panic!("unexpected {:?}", other),
    }
}

#[test]
fn panel_leader_keys() {
    let mut p = panel_with(&[("a.tar.gz", false)], 10);
    let out = p.handle_key(PanelKey::Char('s'));
    assert!(matches!(out.action, PanelAction::Leader(Some('s'))));
    assert_eq!(p.leader, Some('s'));
    let out = p.handle_key(PanelKey::Char('D'));
    assert!(out.leader_reset);
    assert!(matches!(out.action, PanelAction::SortFiles(SortBy::Date, SortOrder::Reverse)));
    assert_eq!(p.leader, None);
    p.handle_key(PanelKey::Char('\''));
    assert_eq!(p.leader, Some('`'));
    let out = p.handle_key(PanelKey::Char('q'));
    assert!(matches!(out.action, PanelAction::GotoBookmark('q')));
    p.handle_key(PanelKey::Char('m'));
    let out = p.handle_key(PanelKey::Char('%'));
    assert!(out.leader_reset);
    assert!(matches!(out.action, PanelAction::Unhandled));
    p.handle_key(PanelKey::Char('c'));
    match p.handle_key(PanelKey::Char('e')).action {
        PanelAction::PromptRename(t, c) => {
            assert_eq!(t, ".tar.gz");
            assert_eq!(c, 0);
        }
        other => panic!("unexpected {:?}", other),
    }
}

#[test]
fn panel_bookmark_inside_archive_is_refused() {
    let mut p = panel_with(&[("a", false)], 10);
    p.inside_archive = true;
    match p.handle_key(PanelKey::Char('m')).action {
        PanelAction::Error(m) => assert_eq!(m, "Cannot bookmark inside an archive"),
        other => panic!("unexpected {:?}", other),
    }
    assert_eq!(p.leader, None);
}

#[test]
fn panel_rename_prompts() {
    let mut p = panel_with(&[("50%.tar.gz", false)], 10);
    match p.handle_key(PanelKey::Char('a')).action {
        PanelAction::PromptRename(t, c) => {
            assert_eq!(t, "50%%.tar.gz");
            assert_eq!(c, 4);
        }
        other => panic!("unexpected {:?}", other),
    }
    match p.handle_key(PanelKey::Char('A')).action {
        PanelAction::PromptRename(t, c) => {
            assert_eq!(t, "50%%.tar.gz");
            assert_eq!(c, 11);
        }
        other => panic!("unexpected {:?}", other),
    }
    match p.handle_key(PanelKey::Char('i')).action {
        PanelAction::PromptRename(_, c) => assert_eq!(c, 0),
        other => panic!("unexpected {:?}", other),
    }
}

#[test]
fn panel_open_decisions() {
    let mut p = panel_with(&[("dir", true), ("a.zip", false), ("a.txt", false)], 10);
    assert_eq!(shown_names(&p), vec!["dir", "a.txt", "a.zip"]);
    assert!(matches!(p.handle_key(PanelKey::Right).action, PanelAction::Chdir(f) if f == "/d/dir"));
    assert!(matches!(p.handle_key(PanelKey::Char('v')).action, PanelAction::Chdir(_)));
    p.handle_down();
    assert!(matches!(p.handle_key(PanelKey::Char('\n')).action, PanelAction::OpenFile(f) if f == "/d/a.txt"));
    assert!(matches!(p.handle_key(PanelKey::F(3)).action, PanelAction::ViewFile(f) if f == "/d/a.txt"));
    assert!(matches!(p.handle_key(PanelKey::Char('e')).action, PanelAction::EditFile(_)));
    assert!(matches!(p.handle_key(PanelKey::Char('x')).action, PanelAction::Execute(f) if f == "/d/a.txt"));
    p.handle_down();
    assert!(matches!(p.handle_key(PanelKey::Char('l')).action, PanelAction::MountImplicit(f) if f == "/d/a.zip"));
    assert!(matches!(p.handle_key(PanelKey::Char('o')).action, PanelAction::MountExplicit(_)));
    p.can_mount = false;
    assert!(matches!(p.handle_key(PanelKey::Char('l')).action, PanelAction::OpenFile(_)));
    match p.handle_key(PanelKey::Char('o')).action {
        PanelAction::Error(m) => assert_eq!(m, "archivefs/archivemount executable not found"),
        other => panic!("unexpected {:?}", other),
    }
}

#[test]
fn panel_unhandled_and_prompts() {
    let mut p = panel_with(&[("a", false)], 10);
    assert!(matches!(p.handle_key(PanelKey::Char('Q')).action, PanelAction::Unhandled));
    assert!(matches!(p.handle_key(PanelKey::Char('+')).action, PanelAction::PromptTagGlob));
    assert!(matches!(p.handle_key(PanelKey::Char('\\')).action, PanelAction::PromptUntagGlob));
    assert!(matches!(p.handle_key(PanelKey::Ctrl('r')).action, PanelAction::Reload));
    assert!(matches!(p.handle_key(PanelKey::Backspace).action, PanelAction::ToggleHidden));
    assert!(matches!(p.handle_key(PanelKey::Ctrl('p')).action, PanelAction::Fzf));
    assert!(matches!(p.handle_key(PanelKey::Char('!')).action, PanelAction::PromptShell));
    assert!(matches!(p.handle_key(PanelKey::Char('7')).action, PanelAction::PromptMkdir));
    assert!(matches!(p.handle_key(PanelKey::Left).action, PanelAction::ChdirParent));
}

#[test]
fn panel_command_table() {
    assert_eq!(fcd::panel::command_of(None, PanelKey::Char('j')), Command::Down);
    assert_eq!(fcd::panel::command_of(Some('c'), PanelKey::Char('w')), Command::RenameEmpty);
    assert_eq!(fcd::panel::command_of(Some('x'), PanelKey::Char('n')), Command::Unhandled);
}

#[test]
fn panel_mouse() {
    let names: Vec<(String, bool)> = (0..10).map(|i| (format!("f{}", i), false)).collect();
    let refs: Vec<(&str, bool)> = names.iter().map(|(n, d)| (n.as_str(), *d)).collect();
    let mut p = panel_with(&refs, 4);
    assert!(p.handle_mouse(PanelMouse::Left(Some(2))));
    assert_eq!(p.cursor, 2);
    assert!(!p.handle_mouse(PanelMouse::Left(Some(20))));
    p.handle_mouse(PanelMouse::Right(Some(1)));
    assert_eq!(p.cursor, 1);
    assert_eq!(tagged_names(&p), vec!["f1"]);
    p.handle_mouse(PanelMouse::WheelDown);
    assert_eq!(p.first_line, 1);
    assert_eq!(p.cursor, 1);
    p.handle_mouse(PanelMouse::WheelDown);
    assert_eq!(p.first_line, 2);
    assert_eq!(p.cursor, 2);
}

#[test]
fn panel_scroll_into_view() {
    let names: Vec<(String, bool)> = (0..10).map(|i| (format!("f{}", i), false)).collect();
    let refs: Vec<(&str, bool)> = names.iter().map(|(n, d)| (n.as_str(), *d)).collect();
    let mut p = panel_with(&refs, 4);
    p.handle_end();
    p.scroll_into_view(4);
    assert_eq!(p.first_line, 6);
    p.handle_home();
    p.scroll_into_view(4);
    assert_eq!(p.first_line, 0);
}

#[test]
fn panel_reload_keeps_selected_file_and_drops_missing_tags() {
    let mut p = panel_with(&[("a", false), ("b", false), ("c", false)], 10);
    p.handle_key(PanelKey::Char('T'));
    p.changed_directory(Some("/d/c".to_string()));
    assert!(p.tagged.is_empty());
    p.handle_key(PanelKey::Char('T'));
    let list = vec![panel_entry("a", false), panel_entry("c", false)];
    p.set_file_list(list, None);
    assert_eq!(shown_names(&p), vec!["a", "c"]);
    assert_eq!(p.cursor, 1);
    assert_eq!(tagged_names(&p).len(), 2);
}

#[test]
fn panel_sort_by_size_reverse() {
    let mut p = FilePanelState::new(10, false);
    let mut a = panel_entry("a", false);
    a.size = Some(10);
    let mut b = panel_entry("b", false);
    b.size = Some(5);
    p.set_file_list(vec![a, b], None);
    p.sort_files(SortBy::Size, SortOrder::Normal, None);
    assert_eq!(shown_names(&p), vec!["b", "a"]);
    p.sort_files(SortBy::Size, SortOrder::Reverse, None);
    assert_eq!(shown_names(&p), vec!["a", "b"]);
}

#[test]
fn entries_sort_in_natural_order() {
    let list = vec![
        panel_entry("file10", false),
        panel_entry("file2", false),
        panel_entry("docs", true),
        panel_entry("file1", false),
        panel_entry("bin", true),
    ];
    let sorted = fcd::entry::sort_entries_by(&list, SortBy::Name, SortOrder::Normal);
    let names: Vec<&str> = sorted.iter().map(|e| e.file_name.as_str()).collect();
    assert_eq!(names, vec!["bin", "docs", "file1", "file2", "file10"]);
    let reversed = fcd::entry::sort_entries_by(&list, SortBy::Name, SortOrder::Reverse);
    let names: Vec<&str> = reversed.iter().map(|e| e.file_name.as_str()).collect();
    assert_eq!(names, vec!["docs", "bin", "file10", "file2", "file1"]);
    assert!(fcd::entry::sort_entries_by(&Vec::new(), SortBy::Size, SortOrder::Normal).is_empty());
}
