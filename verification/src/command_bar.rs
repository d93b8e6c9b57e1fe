//! The command bar at the bottom of the file manager: a one-line input for
//! a glob to tag or untag by, a directory to create, a new name, a shell
//! command or where to save a report; and the filter bar, which filters the
//! panel as the user types.

use vstd::prelude::*;
use crate::input::{edited, is_trim_of, EditKey, Input};

verus! {

/// What the command bar asks for.
#[derive(Debug, Clone, PartialEq, Eq)]
pub enum CmdBarKind {
    TagGlob,
    UntagGlob,
    Mkdir,
    Rename,
    /// A shell command, run in the directory.
    Shell(String),
    /// Where to save the report of the job run in the directory.
    SaveReport(String),
}

/// The keys of the bars: editing keys go to the input first.
#[derive(Debug, Clone, Copy, PartialEq, Eq, Structural)]
pub enum BarKey {
    Edit(EditKey),
    Esc,
    F10,
    BackTab,
    /// Ctrl-c, ctrl-l, ctrl-z or ctrl-o: left to the window.
    Global,
    Other,
}

/// What a bar does with a key.
#[derive(Debug, Clone, PartialEq, Eq)]
pub enum BarOutcome {
    /// The key is not the bar's.
    Unhandled,
    /// The key was taken.
    Handled,
    /// Close the bar.
    Close,
    /// Close the bar and carry out its command with this text.
    Submit(String),
    /// The filter changed to this text.
    Filter(String),
}

/// The key an input gets, if any.
pub open spec fn edit_of(key: BarKey) -> EditKey {
    match key {
        BarKey::Edit(k) => k,
        _ => EditKey::Other,
    }
}

/// The keys the input takes: all editing keys but tab and newline.
pub open spec fn input_takes(key: BarKey) -> bool {
    let k = edit_of(key);
    !(k == EditKey::Other || k == EditKey::Char('\t') || k == EditKey::Char('\n'))
}

/// A command bar: what it asks for and the text typed.
#[derive(Debug)]
pub struct CommandBar {
    pub kind: CmdBarKind,
    pub input: Input,
}

impl CommandBar {
    /// A bar asking for `kind`, starting from `text` with the cursor at
    /// `cursor` (or at the end).
    pub fn new(kind: CmdBarKind, text: &str, cursor: usize) -> (r: CommandBar)
        ensures
            r.kind == kind,
            r.input.text() == text@,
            r.input.cursor() == crate::input::clamp_spec(cursor as int, text@.len() as int),
    {
        CommandBar { kind, input: Input::new(text, cursor) }
    }

    /// Handles a key: the input edits its text; Enter submits the text
    /// (trimmed), Esc and F10 close the bar.
    pub fn handle_key(&mut self, key: BarKey) -> (r: BarOutcome)
        ensures
            final(self).kind == old(self).kind,
            (final(self).input.text(), final(self).input.cursor()) == edited(
                old(self).input.text(),
                old(self).input.cursor(),
                edit_of(key),
            ),
            if input_takes(key) {
                r == BarOutcome::Handled
            } else if key == BarKey::Edit(EditKey::Char('\n')) {
                r matches BarOutcome::Submit(v) && is_trim_of(old(self).input.text(), v@)
            } else if key == BarKey::Esc || key == BarKey::F10 {
                r == BarOutcome::Close
            } else if key == BarKey::Global {
                r == BarOutcome::Unhandled
            } else {
                r == BarOutcome::Handled
            },
    {
        let k = match key {
            BarKey::Edit(k) => k,
            _ => EditKey::Other,
        };
        if self.input.handle_key(k) {
            return BarOutcome::Handled;
        }
        match key {
            BarKey::Edit(EditKey::Char('\n')) => BarOutcome::Submit(self.input.value()),
            BarKey::Esc | BarKey::F10 => BarOutcome::Close,
            BarKey::Global => BarOutcome::Unhandled,
            _ => BarOutcome::Handled,
        }
    }
}

/// The filter bar: the filter typed so far.
#[derive(Debug)]
pub struct FilterBar {
    pub input: Input,
}

impl FilterBar {
    /// A bar showing the current filter, with the cursor at its end.
    pub fn new(filter: &str) -> (r: FilterBar)
        ensures
            r.input.text() == filter@,
            r.input.cursor() == filter@.len(),
    {
        let n = crate::strings::chars_of(filter).len();
        FilterBar { input: Input::new(filter, n) }
    }

    /// Handles a key: an edit changes the filter at once; Enter closes the
    /// bar (the filter stays); tab and back-tab are taken and do nothing;
    /// anything else is left to the panel.
    pub fn handle_key(&mut self, key: BarKey) -> (r: BarOutcome)
        ensures
            (final(self).input.text(), final(self).input.cursor()) == edited(
                old(self).input.text(),
                old(self).input.cursor(),
                edit_of(key),
            ),
            if input_takes(key) {
                r matches BarOutcome::Filter(v) && is_trim_of(final(self).input.text(), v@)
            } else if key == BarKey::Edit(EditKey::Char('\n')) {
                r == BarOutcome::Close
            } else if key == BarKey::Edit(EditKey::Char('\t')) || key == BarKey::BackTab {
                r == BarOutcome::Handled
            } else {
                r == BarOutcome::Unhandled
            },
    {
        let k = match key {
            BarKey::Edit(k) => k,
            _ => EditKey::Other,
        };
        if self.input.handle_key(k) {
            return BarOutcome::Filter(self.input.value());
        }
        match key {
            BarKey::Edit(EditKey::Char('\n')) => BarOutcome::Close,
            BarKey::Edit(EditKey::Char('\t')) | BarKey::BackTab => BarOutcome::Handled,
            _ => BarOutcome::Unhandled,
        }
    }
}

} // verus!
