use fcd::layout::{selected_dir_target, signal_action, AppAction, AppKey, AppLayout, AppSignal, QUICK_VIEW};

fn slots(l: &AppLayout) -> (Vec<usize>, usize, usize, bool) {
    (l.panels.clone(), l.focus, l.quickviewer, l.ctrl_o)
}

#[test]
fn tab_moves_the_focus_and_back() {
    let mut l = AppLayout::new();
    let start = slots(&l);
    assert_eq!(l.handle_key(AppKey::Tab), AppAction::Continue);
    assert_eq!(l.focus, 1);
    assert_eq!(l.focused(), 1);
    l.handle_key(AppKey::BackTab);
    assert_eq!(slots(&l), start);
}

#[test]
fn ctrl_u_swaps_the_panels_and_keeps_the_focused_one() {
    let mut l = AppLayout::new();
    let start = slots(&l);
    l.handle_key(AppKey::CtrlU);
    assert_eq!(l.panels, vec![1, 0, 2]);
    assert_eq!(l.focus, 1);
    assert_eq!(l.focused(), 0);
    l.handle_key(AppKey::CtrlU);
    assert_eq!(slots(&l), start);
}

#[test]
fn quick_view_replaces_the_other_panel() {
    let mut l = AppLayout::new();
    let start = slots(&l);
    assert_eq!(l.handle_key(AppKey::AltQ), AppAction::ToggleQuickView(0));
    assert_eq!(l.panels, vec![0, QUICK_VIEW, 1]);
    assert_eq!(l.quickviewer, 1);
    assert_eq!(l.other_panel(), 1);
    assert_eq!(l.file_panel(), 0);
    assert_eq!(l.handle_key(AppKey::AltQ), AppAction::ToggleQuickView(0));
    assert_eq!(slots(&l), start);
}

#[test]
fn focused_quick_view_leaves_file_commands_on_the_file_panel() {
    let mut l = AppLayout::new();
    l.handle_key(AppKey::AltQ);
    l.handle_key(AppKey::Tab);
    assert_eq!(l.focused(), QUICK_VIEW);
    assert_eq!(l.file_panel(), 0);
    assert_eq!(l.handle_key(AppKey::Quit), AppAction::Quit(0));
    // Hiding the quick viewer while it has the focus moves the focus to the
    // panel that comes back.
    assert_eq!(l.handle_key(AppKey::AltQ), AppAction::ToggleQuickView(1));
    assert_eq!(l.panels, vec![0, 1, QUICK_VIEW]);
    assert_eq!(l.focus, 1);
}

#[test]
fn alt_i_and_alt_o_name_the_other_panel() {
    let mut l = AppLayout::new();
    assert_eq!(l.handle_key(AppKey::AltI), AppAction::SyncCwd(0, 1));
    assert_eq!(l.handle_key(AppKey::AltO), AppAction::SyncSelected(0, 1));
    l.handle_key(AppKey::AltQ);
    assert_eq!(l.handle_key(AppKey::AltI), AppAction::SyncCwd(0, 1));
}

#[test]
fn ctrl_o_holds_keys_until_enter() {
    let mut l = AppLayout::new();
    assert_eq!(l.handle_key(AppKey::CtrlO), AppAction::CtrlO);
    assert!(l.ctrl_o);
    assert_eq!(l.handle_key(AppKey::Quit), AppAction::Continue);
    assert_eq!(l.handle_key(AppKey::Tab), AppAction::Continue);
    assert_eq!(l.focus, 0);
    assert_eq!(l.handle_key(AppKey::CtrlC), AppAction::CtrlC);
    assert_eq!(l.handle_key(AppKey::Enter), AppAction::ExitCtrlO);
    assert!(!l.ctrl_o);
}

#[test]
fn plain_keys_and_signals() {
    let mut l = AppLayout::new();
    assert_eq!(l.handle_key(AppKey::CtrlL), AppAction::Redraw);
    assert_eq!(l.handle_key(AppKey::CtrlZ), AppAction::CtrlZ);
    assert_eq!(l.handle_key(AppKey::Esc), AppAction::Esc);
    assert_eq!(l.handle_key(AppKey::Other), AppAction::Continue);
    assert_eq!(signal_action(AppSignal::Int), AppAction::CtrlC);
    assert_eq!(signal_action(AppSignal::Term), AppAction::SigTerm);
    assert_eq!(signal_action(AppSignal::Cont), AppAction::SigCont);
    assert_eq!(signal_action(AppSignal::Winch), AppAction::Continue);
}

#[test]
fn selected_dir_target_prefers_a_selected_directory() {
    assert_eq!(selected_dir_target("/a/b", Some(("/a/b/c", true))), "/a/b/c");
    assert_eq!(selected_dir_target("/a/b", Some(("/a/b/f", false))), "/a");
    assert_eq!(selected_dir_target("/a/b", None), "/a");
    assert_eq!(selected_dir_target("/", None), "/");
}
