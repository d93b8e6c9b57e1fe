use fcd::dialogs::{
    button_row_key, check_box_key, pending_job_key, question_key, scroll_messages, DialogKey, DialogOutcome,
    PendingChoice, RadioBox, SearchFocus, SearchTarget, SectionFocus, suspend_label, ProgressControl, ProgressOutcome,
    WorkerEvent,
};

#[test]
fn radio_box_moves_and_chooses() {
    let mut r = RadioBox::new(3, 7);
    assert_eq!(r.selected, 2);
    assert!(!r.handle_key(DialogKey::Up));
    assert!(r.handle_key(DialogKey::Down));
    assert!(r.handle_key(DialogKey::Down));
    assert!(!r.handle_key(DialogKey::Down));
    assert_eq!(r.cursor, 2);
    assert!(r.handle_key(DialogKey::Up));
    assert!(r.handle_key(DialogKey::Space));
    assert_eq!(r.selected, 1);
    assert!(!r.handle_key(DialogKey::Tab));
    assert_eq!(RadioBox::new(0, 5).selected, 0);
}

#[test]
fn check_box_toggles_on_space() {
    let mut c = false;
    assert!(check_box_key(&mut c, DialogKey::Space));
    assert!(c);
    assert!(!check_box_key(&mut c, DialogKey::Enter));
    assert!(c);
}

#[test]
fn search_dialog_focus_walks_sections_and_check_boxes() {
    let mut f = SearchFocus::new(2);
    assert_eq!(f.target(), SearchTarget::Input);
    assert_eq!(f.handle_key(DialogKey::Down), DialogOutcome::Handled);
    assert_eq!(f.target(), SearchTarget::Radio);
    f.handle_key(DialogKey::Right);
    assert_eq!(f.target(), SearchTarget::Check(0));
    f.handle_key(DialogKey::Down);
    assert_eq!(f.target(), SearchTarget::Check(1));
    f.handle_key(DialogKey::Down);
    assert_eq!(f.target(), SearchTarget::Buttons);
    f.handle_key(DialogKey::Right);
    assert_eq!(f.handle_key(DialogKey::Enter), DialogOutcome::Close);
    f.handle_key(DialogKey::Left);
    assert_eq!(f.handle_key(DialogKey::Space), DialogOutcome::Confirm);
    f.handle_key(DialogKey::Tab);
    assert_eq!(f.target(), SearchTarget::Input);
    f.handle_key(DialogKey::BackTab);
    assert_eq!(f.target(), SearchTarget::Buttons);
    assert_eq!(f.handle_key(DialogKey::Zero), DialogOutcome::Close);
    assert_eq!(f.handle_key(DialogKey::Global), DialogOutcome::Unhandled);
    assert_eq!(f.handle_key(DialogKey::Char), DialogOutcome::Handled);
}

#[test]
fn goto_and_copy_dialog_focus() {
    let mut g = SectionFocus::new(2);
    assert_eq!(g.handle_key(DialogKey::Enter), DialogOutcome::Confirm);
    g.handle_key(DialogKey::BackTab);
    assert!(g.on_buttons());
    g.handle_key(DialogKey::Right);
    assert_eq!(g.handle_key(DialogKey::Enter), DialogOutcome::Close);
    g.handle_key(DialogKey::Up);
    assert_eq!(g.section, 0);
    assert_eq!(g.handle_key(DialogKey::Enter), DialogOutcome::Confirm);

    let mut c = SectionFocus::new(3);
    c.handle_key(DialogKey::BackTab);
    assert_eq!(c.section, 2);
    c.handle_key(DialogKey::Up);
    assert_eq!(c.section, 1);
    assert_eq!(c.handle_key(DialogKey::Enter), DialogOutcome::Confirm);
    c.handle_key(DialogKey::Down);
    c.handle_key(DialogKey::Down);
    assert_eq!(c.section, 2);
    c.handle_key(DialogKey::Right);
    assert_eq!(c.handle_key(DialogKey::Space), DialogOutcome::Close);
}

#[test]
fn question_and_button_rows() {
    assert_eq!(question_key(0, DialogKey::Enter), (0, DialogOutcome::Confirm));
    assert_eq!(question_key(0, DialogKey::Right), (1, DialogOutcome::Handled));
    assert_eq!(question_key(1, DialogKey::Space), (1, DialogOutcome::Close));
    assert_eq!(question_key(1, DialogKey::Esc), (1, DialogOutcome::Close));
    assert_eq!(button_row_key(0, 3, DialogKey::Left), 0);
    assert_eq!(button_row_key(1, 3, DialogKey::Right), 2);
    assert_eq!(button_row_key(2, 3, DialogKey::Right), 2);
}

#[test]
fn message_lists_scroll_within_bounds() {
    assert_eq!(scroll_messages(0, DialogKey::Up, 5, 20), 0);
    assert_eq!(scroll_messages(3, DialogKey::Down, 5, 20), 4);
    assert_eq!(scroll_messages(15, DialogKey::Down, 5, 20), 15);
    assert_eq!(scroll_messages(9, DialogKey::End, 5, 20), 15);
    assert_eq!(scroll_messages(9, DialogKey::Home, 5, 20), 0);
    assert_eq!(scroll_messages(9, DialogKey::PageUp, 5, 20), 5);
    assert_eq!(scroll_messages(9, DialogKey::PageDown, 5, 20), 13);
    assert_eq!(scroll_messages(12, DialogKey::PageDown, 5, 20), 15);
    assert_eq!(scroll_messages(0, DialogKey::End, 5, 3), 0);
}

#[test]
fn pending_job_dialog_choices() {
    assert_eq!(pending_job_key(0, 0, DialogKey::Enter, 5, 9), (0, 0, PendingChoice::Resume, true));
    assert_eq!(pending_job_key(1, 0, DialogKey::Enter, 5, 9), (1, 0, PendingChoice::Skip, true));
    assert_eq!(pending_job_key(2, 0, DialogKey::Space, 5, 9), (2, 0, PendingChoice::Delete, true));
    assert_eq!(pending_job_key(2, 0, DialogKey::Esc, 5, 9), (2, 0, PendingChoice::Skip, true));
    assert_eq!(pending_job_key(1, 0, DialogKey::Right, 5, 9), (2, 0, PendingChoice::Undecided, true));
    assert_eq!(pending_job_key(1, 2, DialogKey::Down, 5, 9), (1, 3, PendingChoice::Undecided, true));
    assert_eq!(pending_job_key(1, 2, DialogKey::Global, 5, 9), (1, 2, PendingChoice::Undecided, false));
}

#[test]
fn progress_buttons_suspend_skip_and_abort() {
    let mut c = ProgressControl::new();
    assert_eq!(suspend_label(c.suspended), "Suspend ");
    assert_eq!(
        c.handle_key(DialogKey::Enter, true),
        ProgressOutcome { resume: false, event: Some(WorkerEvent::Suspend), handled: true }
    );
    assert!(c.suspended);
    assert_eq!(suspend_label(c.suspended), "Continue");
    c.handle_key(DialogKey::Right, true);
    assert_eq!(c.focus, 1);
    assert_eq!(
        c.handle_key(DialogKey::Space, true),
        ProgressOutcome { resume: true, event: Some(WorkerEvent::Skip), handled: true }
    );
    assert!(!c.suspended);
    c.handle_key(DialogKey::Left, true);
    assert_eq!(c.handle_key(DialogKey::Enter, true).event, Some(WorkerEvent::Suspend));
    assert_eq!(
        c.handle_key(DialogKey::Enter, true),
        ProgressOutcome { resume: true, event: None, handled: true }
    );
    assert_eq!(c.handle_key(DialogKey::Esc, true).event, Some(WorkerEvent::Abort));
    assert_eq!(c.handle_key(DialogKey::Esc, false).event, None);
    assert!(!c.handle_key(DialogKey::Global, false).handled);
}
