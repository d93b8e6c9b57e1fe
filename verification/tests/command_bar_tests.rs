use fcd::command_bar::{BarKey, BarOutcome, CmdBarKind, CommandBar, FilterBar};
use fcd::input::EditKey;

#[test]
fn command_bar_submits_the_trimmed_text() {
    let mut bar = CommandBar::new(CmdBarKind::Mkdir, "", 0);
    for c in " new dir ".chars() {
        assert_eq!(bar.handle_key(BarKey::Edit(EditKey::Char(c))), BarOutcome::Handled);
    }
    assert_eq!(bar.handle_key(BarKey::Edit(EditKey::Backspace)), BarOutcome::Handled);
    assert_eq!(bar.handle_key(BarKey::Edit(EditKey::Char('\n'))), BarOutcome::Submit("new dir".to_string()));
    assert_eq!(bar.kind, CmdBarKind::Mkdir);
}

#[test]
fn command_bar_closes_and_leaves_global_keys() {
    let mut bar = CommandBar::new(CmdBarKind::Shell("/w".to_string()), "ls", 9);
    assert_eq!(bar.input.cursor_position(), 2);
    assert_eq!(bar.handle_key(BarKey::Esc), BarOutcome::Close);
    assert_eq!(bar.handle_key(BarKey::F10), BarOutcome::Close);
    assert_eq!(bar.handle_key(BarKey::Global), BarOutcome::Unhandled);
    assert_eq!(bar.handle_key(BarKey::Edit(EditKey::Char('\t'))), BarOutcome::Handled);
    assert_eq!(bar.handle_key(BarKey::Edit(EditKey::Char('0'))), BarOutcome::Handled);
    assert_eq!(bar.input.value(), "ls0");
}

#[test]
fn filter_bar_filters_as_the_user_types() {
    let mut bar = FilterBar::new("ab");
    assert_eq!(bar.handle_key(BarKey::Edit(EditKey::Char('c'))), BarOutcome::Filter("abc".to_string()));
    assert_eq!(bar.handle_key(BarKey::Edit(EditKey::Home)), BarOutcome::Filter("abc".to_string()));
    assert_eq!(bar.handle_key(BarKey::Edit(EditKey::Delete)), BarOutcome::Filter("bc".to_string()));
    assert_eq!(bar.handle_key(BarKey::Edit(EditKey::Char('\n'))), BarOutcome::Close);
    assert_eq!(bar.handle_key(BarKey::BackTab), BarOutcome::Handled);
    assert_eq!(bar.handle_key(BarKey::Esc), BarOutcome::Unhandled);
}
