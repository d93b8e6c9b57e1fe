//! The keyboard focus of the dialogs and their small widgets: radio boxes,
//! check boxes, the sections and buttons of the search, goto, copy and
//! question dialogs, and the scrolling message lists of the report and
//! pending-job dialogs.

use vstd::prelude::*;
use crate::text_view::{clamp_first_line, clamp_first_line_spec};

verus! {

/// The keys the dialogs handle.
#[derive(Debug, Clone, Copy, PartialEq, Eq, Structural)]
pub enum DialogKey {
    Esc,
    /// `q`, `Q` or F10.
    Quit,
    /// `0`.
    Zero,
    Enter,
    Space,
    Tab,
    BackTab,
    Up,
    Down,
    Left,
    Right,
    Home,
    End,
    PageUp,
    PageDown,
    /// Ctrl-c, ctrl-l, ctrl-z or ctrl-o: left to the window.
    Global,
    /// Any other character or function key.
    Char,
    Other,
}

/// What a dialog does with a key.
#[derive(Debug, Clone, Copy, PartialEq, Eq, Structural)]
pub enum DialogOutcome {
    /// The key is not the dialog's: the window handles it.
    Unhandled,
    /// The key was taken.
    Handled,
    /// Close the dialog.
    Close,
    /// Close the dialog and do what it was opened for.
    Confirm,
}

/// Whether the key closes a dialog: Esc, `q`, F10 and, in most dialogs, `0`.
pub open spec fn closes(key: DialogKey, zero_closes: bool) -> bool {
    key == DialogKey::Esc || key == DialogKey::Quit || (zero_closes && key == DialogKey::Zero)
}

// ---------------------------------------------------------------------------
// Widgets

/// A list of exclusive choices: the one chosen and the one under the cursor.
#[derive(Debug, Clone, Copy, PartialEq, Eq, Structural)]
pub struct RadioBox {
    pub len: usize,
    pub selected: usize,
    pub cursor: usize,
}

impl RadioBox {
    pub open spec fn wf(&self) -> bool {
        self.len > 0 ==> self.selected < self.len && self.cursor < self.len
    }

    /// A box of `len` choices with `selected` chosen (the last one when
    /// `selected` is past the end).
    pub fn new(len: usize, selected: usize) -> (r: RadioBox)
        ensures
            r.wf(),
            r.len == len,
            r.selected == if len == 0 {
                0
            } else if selected < len {
                selected as int
            } else {
                len - 1
            },
            r.cursor == 0,
    {
        let last = if len == 0 { 0 } else { len - 1 };
        RadioBox { len, selected: if selected < last { selected } else { last }, cursor: 0 }
    }

    /// Moves the cursor or chooses; a key that would move past either end
    /// is left to the dialog.
    pub fn handle_key(&mut self, key: DialogKey) -> (handled: bool)
        requires
            old(self).wf(),
        ensures
            final(self).wf(),
            final(self).len == old(self).len,
            match key {
                DialogKey::Up => if old(self).cursor > 0 {
                    handled && final(self).cursor == old(self).cursor - 1 && final(self).selected
                        == old(self).selected
                } else {
                    !handled && *final(self) == *old(self)
                },
                DialogKey::Down => if old(self).cursor + 1 < old(self).len {
                    handled && final(self).cursor == old(self).cursor + 1 && final(self).selected
                        == old(self).selected
                } else {
                    !handled && *final(self) == *old(self)
                },
                DialogKey::Space | DialogKey::Enter => handled && final(self).selected == old(self).cursor
                    && final(self).cursor == old(self).cursor,
                _ => !handled && *final(self) == *old(self),
            },
    {
        match key {
            DialogKey::Up => {
                if self.cursor > 0 {
                    self.cursor = self.cursor - 1;
                    true
                } else {
                    false
                }
            },
            DialogKey::Down => {
                if self.len > 0 && self.cursor < self.len - 1 {
                    self.cursor = self.cursor + 1;
                    true
                } else {
                    false
                }
            },
            DialogKey::Space | DialogKey::Enter => {
                self.selected = self.cursor;
                true
            },
            _ => false,
        }
    }
}

/// Space toggles a check box; other keys are left to the dialog.
pub fn check_box_key(checked: &mut bool, key: DialogKey) -> (handled: bool)
    ensures
        handled == (key == DialogKey::Space),
        *final(checked) == if handled {
            !*old(checked)
        } else {
            *old(checked)
        },
{
    if key == DialogKey::Space {
        *checked = !*checked;
        true
    } else {
        false
    }
}

// ---------------------------------------------------------------------------
// The text search dialog

/// Where the focus is in the text search dialog: the input (section 0),
/// the middle (section 1: the search type on the left, the check boxes on
/// the right), or the buttons (section 2).
#[derive(Debug, Clone, Copy, PartialEq, Eq, Structural)]
pub struct SearchFocus {
    pub section: usize,
    pub middle: usize,
    pub check: usize,
    pub button: usize,
    pub checks: usize,
}

/// The widget of the search dialog that sees a key first.
#[derive(Debug, Clone, Copy, PartialEq, Eq, Structural)]
pub enum SearchTarget {
    Input,
    Radio,
    Check(usize),
    Buttons,
}

/// The focus of the text search dialog after a key the focused widget did
/// not take.
pub open spec fn search_focus_after(f: SearchFocus, key: DialogKey) -> SearchFocus {
    let (s, m, c, b) = (f.section as int, f.middle as int, f.check as int, f.button as int);
    let n = f.checks as int;
    let (s2, m2, c2, b2) = match key {
        DialogKey::Tab => ((s + 1) % 3, m, c, b),
        DialogKey::BackTab => ((s + 2) % 3, m, c, b),
        DialogKey::Up => if s == 1 && m == 1 {
            if c > 0 {
                (s, m, c - 1, b)
            } else {
                (s - 1, m, c, b)
            }
        } else {
            (if s > 0 { s - 1 } else { s }, m, c, b)
        },
        DialogKey::Down => if s == 1 && m == 1 {
            if c + 1 < n {
                (s, m, c + 1, b)
            } else {
                (s + 1, m, c, b)
            }
        } else {
            (if s + 1 < 3 { s + 1 } else { s }, m, c, b)
        },
        DialogKey::Left => if s == 1 {
            (s, 0, c, b)
        } else if s == 2 {
            (s, m, c, 0)
        } else {
            (s, m, c, b)
        },
        DialogKey::Right => if s == 1 {
            (s, 1, c, b)
        } else if s == 2 {
            (s, m, c, 1)
        } else {
            (s, m, c, b)
        },
        _ => (s, m, c, b),
    };
    SearchFocus { section: s2 as usize, middle: m2 as usize, check: c2 as usize, button: b2 as usize, checks: f.checks }
}

impl SearchFocus {
    pub open spec fn wf(&self) -> bool {
        &&& self.section < 3
        &&& self.middle < 2
        &&& self.button < 2
        &&& self.check < self.checks
    }

    /// The focus at the input, with `checks` check boxes.
    pub fn new(checks: usize) -> (r: SearchFocus)
        requires
            checks > 0,
        ensures
            r.wf(),
            r == (SearchFocus { section: 0, middle: 0, check: 0, button: 0, checks }),
    {
        SearchFocus { section: 0, middle: 0, check: 0, button: 0, checks }
    }

    /// The widget that sees keys first.
    pub fn target(&self) -> (r: SearchTarget)
        requires
            self.wf(),
        ensures
            r == if self.section == 0 {
                SearchTarget::Input
            } else if self.section == 2 {
                SearchTarget::Buttons
            } else if self.middle == 0 {
                SearchTarget::Radio
            } else {
                SearchTarget::Check(self.check)
            },
    {
        if self.section == 0 {
            SearchTarget::Input
        } else if self.section == 2 {
            SearchTarget::Buttons
        } else if self.middle == 0 {
            SearchTarget::Radio
        } else {
            SearchTarget::Check(self.check)
        }
    }

    /// Handles a key that the focused widget did not take.  Tab and
    /// back-tab cycle through the sections; up and down also walk the check
    /// boxes; left and right pick the side or the button.  Enter and space
    /// confirm unless the cancel button has the focus.
    pub fn handle_key(&mut self, key: DialogKey) -> (r: DialogOutcome)
        requires
            old(self).wf(),
        ensures
            final(self).wf(),
            final(self).checks == old(self).checks,
            r == match key {
                DialogKey::Esc | DialogKey::Quit | DialogKey::Zero => DialogOutcome::Close,
                DialogKey::Enter | DialogKey::Space => if old(self).section != 2 || old(self).button == 0 {
                    DialogOutcome::Confirm
                } else {
                    DialogOutcome::Close
                },
                DialogKey::Global => DialogOutcome::Unhandled,
                _ => DialogOutcome::Handled,
            },
            *final(self) == search_focus_after(*old(self), key),
    {
        match key {
            DialogKey::Esc | DialogKey::Quit | DialogKey::Zero => DialogOutcome::Close,
            DialogKey::Enter | DialogKey::Space => {
                if self.section != 2 || self.button == 0 {
                    DialogOutcome::Confirm
                } else {
                    DialogOutcome::Close
                }
            },
            DialogKey::Tab => {
                self.section = (self.section + 1) % 3;
                DialogOutcome::Handled
            },
            DialogKey::BackTab => {
                self.section = (self.section + 2) % 3;
                DialogOutcome::Handled
            },
            DialogKey::Up => {
                if self.section == 1 && self.middle == 1 {
                    if self.check > 0 {
                        self.check = self.check - 1;
                    } else {
                        self.section = 0;
                    }
                } else if self.section > 0 {
                    self.section = self.section - 1;
                }
                DialogOutcome::Handled
            },
            DialogKey::Down => {
                if self.section == 1 && self.middle == 1 {
                    if self.check + 1 < self.checks {
                        self.check = self.check + 1;
                    } else {
                        self.section = 2;
                    }
                } else if self.section + 1 < 3 {
                    self.section = self.section + 1;
                }
                DialogOutcome::Handled
            },
            DialogKey::Left => {
                if self.section == 1 {
                    self.middle = 0;
                } else if self.section == 2 {
                    self.button = 0;
                }
                DialogOutcome::Handled
            },
            DialogKey::Right => {
                if self.section == 1 {
                    self.middle = 1;
                } else if self.section == 2 {
                    self.button = 1;
                }
                DialogOutcome::Handled
            },
            DialogKey::Global => DialogOutcome::Unhandled,
            _ => DialogOutcome::Handled,
        }
    }
}

/// Tab then back-tab, or three tabs, leave the focus where it was.
pub proof fn law_tab_cycles(f: SearchFocus)
    requires
        f.wf(),
    ensures
        search_focus_after(search_focus_after(f, DialogKey::Tab), DialogKey::BackTab) == f,
        search_focus_after(
            search_focus_after(search_focus_after(f, DialogKey::Tab), DialogKey::Tab),
            DialogKey::Tab,
        ) == f,
{
}

// ---------------------------------------------------------------------------
// Dialogs with sections and two buttons

/// Where the focus is in a dialog made of `sections` sections, the last of
/// which holds two buttons (OK and cancel): the goto dialog (an input and
/// the buttons) and the copy dialog (an input, the choice of what to do
/// with existing files, and the buttons).
#[derive(Debug, Clone, Copy, PartialEq, Eq, Structural)]
pub struct SectionFocus {
    pub sections: usize,
    pub section: usize,
    pub button: usize,
}

impl SectionFocus {
    pub open spec fn wf(&self) -> bool {
        &&& 2 <= self.sections <= 3
        &&& self.section < self.sections
        &&& self.button < 2
    }

    pub fn new(sections: usize) -> (r: SectionFocus)
        requires
            2 <= sections <= 3,
        ensures
            r.wf(),
            r == (SectionFocus { sections, section: 0, button: 0 }),
    {
        SectionFocus { sections, section: 0, button: 0 }
    }

    /// Whether the buttons have the focus (else the section's widget sees
    /// keys first).
    pub fn on_buttons(&self) -> (r: bool)
        requires
            self.wf(),
        ensures
            r == (self.section + 1 == self.sections),
    {
        self.section + 1 == self.sections
    }

    /// Handles a key that the focused widget did not take.  In the goto
    /// dialog (two sections) tab and back-tab both switch sections, up and
    /// down go to the input and to the buttons, and enter confirms from the
    /// input or on OK.  In the copy dialog (three sections) tab and
    /// back-tab cycle, up and down move one section, and enter confirms
    /// unless cancel has the focus.
    pub fn handle_key(&mut self, key: DialogKey) -> (r: DialogOutcome)
        requires
            old(self).wf(),
        ensures
            final(self).wf(),
            final(self).sections == old(self).sections,
            ({
                let n = old(self).sections as int;
                let s = old(self).section as int;
                let b = old(self).button as int;
                let last = n - 1;
                &&& r == match key {
                    DialogKey::Esc | DialogKey::Quit | DialogKey::Zero => DialogOutcome::Close,
                    DialogKey::Enter | DialogKey::Space => if (if n == 2 {
                        s == 0
                    } else {
                        s != last
                    }) || b == 0 {
                        DialogOutcome::Confirm
                    } else {
                        DialogOutcome::Close
                    },
                    DialogKey::Global => DialogOutcome::Unhandled,
                    _ => DialogOutcome::Handled,
                }
                &&& final(self).section == match key {
                    DialogKey::Tab => (s + 1) % n,
                    DialogKey::BackTab => if n == 2 {
                        (s + 1) % n
                    } else {
                        (s + n - 1) % n
                    },
                    DialogKey::Up => if n == 2 {
                        0
                    } else if s > 0 {
                        s - 1
                    } else {
                        0
                    },
                    DialogKey::Down => if n == 2 {
                        1
                    } else if s + 1 < last {
                        s + 1
                    } else {
                        last
                    },
                    _ => s,
                }
                &&& final(self).button == match key {
                    DialogKey::Left => if s == last {
                        0
                    } else {
                        b
                    },
                    DialogKey::Right => if s == last {
                        1
                    } else {
                        b
                    },
                    _ => b,
                }
            }),
    {
        let n = self.sections;
        let last = n - 1;
        match key {
            DialogKey::Esc | DialogKey::Quit | DialogKey::Zero => DialogOutcome::Close,
            DialogKey::Enter | DialogKey::Space => {
                let from_input = if n == 2 {
                    self.section == 0
                } else {
                    self.section != last
                };
                if from_input || self.button == 0 {
                    DialogOutcome::Confirm
                } else {
                    DialogOutcome::Close
                }
            },
            DialogKey::Tab => {
                self.section = (self.section + 1) % n;
                DialogOutcome::Handled
            },
            DialogKey::BackTab => {
                self.section = if n == 2 {
                    (self.section + 1) % n
                } else {
                    (self.section + n - 1) % n
                };
                DialogOutcome::Handled
            },
            DialogKey::Up => {
                self.section = if n == 2 {
                    0
                } else if self.section > 0 {
                    self.section - 1
                } else {
                    0
                };
                DialogOutcome::Handled
            },
            DialogKey::Down => {
                self.section = if n == 2 {
                    1
                } else if self.section + 1 < last {
                    self.section + 1
                } else {
                    last
                };
                DialogOutcome::Handled
            },
            DialogKey::Left => {
                if self.section == last {
                    self.button = 0;
                }
                DialogOutcome::Handled
            },
            DialogKey::Right => {
                if self.section == last {
                    self.button = 1;
                }
                DialogOutcome::Handled
            },
            DialogKey::Global => DialogOutcome::Unhandled,
            _ => DialogOutcome::Handled,
        }
    }
}

// ---------------------------------------------------------------------------
// Button rows and message lists

/// The button focused after `key` in a row of `len` buttons: left and
/// right stop at the ends.
pub open spec fn button_row_spec(focus: int, len: int, key: DialogKey) -> int {
    match key {
        DialogKey::Left => if focus > 0 {
            focus - 1
        } else {
            0
        },
        DialogKey::Right => if focus + 1 < len {
            focus + 1
        } else {
            focus
        },
        _ => focus,
    }
}

/// Moves the focus along a row of `len` buttons.
pub fn button_row_key(focus: usize, len: usize, key: DialogKey) -> (r: usize)
    requires
        focus < len,
    ensures
        r < len,
        r == button_row_spec(focus as int, len as int, key),
{
    match key {
        DialogKey::Left => if focus > 0 {
            focus - 1
        } else {
            0
        },
        DialogKey::Right => if focus + 1 < len {
            focus + 1
        } else {
            focus
        },
        _ => focus,
    }
}

/// The first line of a list of `len` messages shown `height` at a time,
/// after a scrolling key: a line or a page (the height less one) up or
/// down, or to either end; scrolling down never goes past the last page.
pub open spec fn scroll_spec(first_line: int, key: DialogKey, height: int, len: int) -> int {
    let page = if height > 0 { height - 1 } else { 0 };
    match key {
        DialogKey::Up => if first_line > 0 {
            first_line - 1
        } else {
            0
        },
        DialogKey::Down => clamp_first_line_spec(
            if first_line < usize::MAX { first_line + 1 } else { first_line },
            height,
            len,
        ),
        DialogKey::Home => 0,
        DialogKey::End => clamp_first_line_spec(len, height, len),
        DialogKey::PageUp => if first_line > page {
            first_line - page
        } else {
            0
        },
        DialogKey::PageDown => clamp_first_line_spec(
            if first_line + page <= usize::MAX { first_line + page } else { usize::MAX as int },
            height,
            len,
        ),
        _ => first_line,
    }
}

pub fn scroll_messages(first_line: usize, key: DialogKey, height: usize, len: usize) -> (r: usize)
    ensures
        r == scroll_spec(first_line as int, key, height as int, len as int),
{
    let page = if height > 0 { height - 1 } else { 0 };
    match key {
        DialogKey::Up => first_line.saturating_sub(1),
        DialogKey::Down => clamp_first_line(first_line.saturating_add(1), height, len),
        DialogKey::Home => 0,
        DialogKey::End => clamp_first_line(len, height, len),
        DialogKey::PageUp => first_line.saturating_sub(page),
        DialogKey::PageDown => clamp_first_line(first_line.saturating_add(page), height, len),
        _ => first_line,
    }
}

/// What the question dialog does: yes is the first button.
pub fn question_key(focus: usize, key: DialogKey) -> (r: (usize, DialogOutcome))
    requires
        focus < 2,
    ensures
        r.0 < 2,
        r == match key {
            DialogKey::Esc | DialogKey::Quit | DialogKey::Zero => (focus, DialogOutcome::Close),
            DialogKey::Enter | DialogKey::Space => (
                focus,
                if focus == 0 {
                    DialogOutcome::Confirm
                } else {
                    DialogOutcome::Close
                },
            ),
            DialogKey::Left => (0usize, DialogOutcome::Handled),
            DialogKey::Right => (1usize, DialogOutcome::Handled),
            DialogKey::Global => (focus, DialogOutcome::Unhandled),
            _ => (focus, DialogOutcome::Handled),
        },
{
    match key {
        DialogKey::Esc | DialogKey::Quit | DialogKey::Zero => (focus, DialogOutcome::Close),
        DialogKey::Enter | DialogKey::Space => (
            focus,
            if focus == 0 {
                DialogOutcome::Confirm
            } else {
                DialogOutcome::Close
            },
        ),
        DialogKey::Left => (0, DialogOutcome::Handled),
        DialogKey::Right => (1, DialogOutcome::Handled),
        DialogKey::Global => (focus, DialogOutcome::Unhandled),
        _ => (focus, DialogOutcome::Handled),
    }
}

/// What the user chose about an interrupted job.
#[derive(Debug, Clone, Copy, PartialEq, Eq, Structural)]
pub enum PendingChoice {
    /// Nothing yet.
    Undecided,
    /// Take the job up again.
    Resume,
    /// Leave it for now: go on with the next one.
    Skip,
    /// Delete it, then go on with the next one.
    Delete,
}

/// The pending-job dialog: three buttons (resume, skip, delete) and the
/// job's files, scrolled `height` lines at a time.  Esc and the quit keys
/// skip the job.
pub fn pending_job_key(focus: usize, first_line: usize, key: DialogKey, height: usize, len: usize) -> (r: (
    usize,
    usize,
    PendingChoice,
    bool,
))
    requires
        focus < 3,
    ensures
        r.0 < 3,
        r.0 == button_row_spec(focus as int, 3, key),
        r.1 == scroll_spec(first_line as int, key, height as int, len as int),
        r.2 == match key {
            DialogKey::Esc | DialogKey::Quit | DialogKey::Zero => PendingChoice::Skip,
            DialogKey::Enter | DialogKey::Space => if focus == 0 {
                PendingChoice::Resume
            } else if focus == 1 {
                PendingChoice::Skip
            } else {
                PendingChoice::Delete
            },
            _ => PendingChoice::Undecided,
        },
        r.3 == (key != DialogKey::Global),
{
    let f = button_row_key(focus, 3, key);
    let l = scroll_messages(first_line, key, height, len);
    let c = match key {
        DialogKey::Esc | DialogKey::Quit | DialogKey::Zero => PendingChoice::Skip,
        DialogKey::Enter | DialogKey::Space => if focus == 0 {
            PendingChoice::Resume
        } else if focus == 1 {
            PendingChoice::Skip
        } else {
            PendingChoice::Delete
        },
        _ => PendingChoice::Undecided,
    };
    (f, l, c, key != DialogKey::Global)
}


// ---------------------------------------------------------------------------
// Progress dialogs

/// What a progress dialog tells the worker doing the job.
#[derive(Debug, Clone, Copy, PartialEq, Eq, Structural)]
pub enum WorkerEvent {
    Suspend,
    Skip,
    Abort,
}

/// What a key in a progress dialog leads to: whether the suspended worker
/// is let go on first, and what it is then told.
#[derive(Debug, Clone, Copy, PartialEq, Eq, Structural)]
pub struct ProgressOutcome {
    pub resume: bool,
    pub event: Option<WorkerEvent>,
    pub handled: bool,
}

/// The buttons of a progress dialog (suspend or continue, skip, abort) and
/// whether the worker is suspended.
#[derive(Debug, Clone, Copy, PartialEq, Eq, Structural)]
pub struct ProgressControl {
    pub focus: usize,
    pub suspended: bool,
}

/// The label of the first button.
pub fn suspend_label(suspended: bool) -> (r: &'static str)
    ensures
        r@ == if suspended {
            "Continue"@
        } else {
            "Suspend "@
        },
{
    proof {
        reveal_strlit("Continue");
        reveal_strlit("Suspend ");
    }
    if suspended {
        "Continue"
    } else {
        "Suspend "
    }
}

impl ProgressControl {
    pub fn new() -> (r: ProgressControl)
        ensures
            r == (ProgressControl { focus: 0, suspended: false }),
    {
        ProgressControl { focus: 0, suspended: false }
    }

    /// Handles a key.  The first button suspends or lets the worker go on;
    /// skip and abort let a suspended worker go on first.  Where
    /// `esc_aborts` (the delete dialog), the quit keys abort too.
    pub fn handle_key(&mut self, key: DialogKey, esc_aborts: bool) -> (r: ProgressOutcome)
        requires
            old(self).focus < 3,
        ensures
            final(self).focus < 3,
            final(self).focus == button_row_spec(old(self).focus as int, 3, key),
            r.handled == (key != DialogKey::Global),
            (r.event == Some(WorkerEvent::Skip) || r.event == Some(WorkerEvent::Abort)) ==> (!final(self).suspended
                && r.resume == old(self).suspended),
            ({
                let s = old(self).suspended;
                let quits = esc_aborts && closes(key, true);
                let enter = key == DialogKey::Enter || key == DialogKey::Space;
                if quits || (enter && old(self).focus == 2) {
                    r.event == Some(WorkerEvent::Abort)
                } else if enter && old(self).focus == 1 {
                    r.event == Some(WorkerEvent::Skip)
                } else if enter && old(self).focus == 0 {
                    if s {
                        r.resume && r.event is None && !final(self).suspended
                    } else {
                        !r.resume && r.event == Some(WorkerEvent::Suspend) && final(self).suspended
                    }
                } else {
                    !r.resume && r.event is None && final(self).suspended == s
                }
            }),
    {
        let enter = key == DialogKey::Enter || key == DialogKey::Space;
        let quits = esc_aborts && (key == DialogKey::Esc || key == DialogKey::Quit || key == DialogKey::Zero);
        let handled = key != DialogKey::Global;
        if quits || (enter && self.focus == 2) {
            let resume = self.suspended;
            self.suspended = false;
            return ProgressOutcome { resume, event: Some(WorkerEvent::Abort), handled };
        }
        if enter && self.focus == 1 {
            let resume = self.suspended;
            self.suspended = false;
            return ProgressOutcome { resume, event: Some(WorkerEvent::Skip), handled };
        }
        if enter && self.focus == 0 {
            if self.suspended {
                self.suspended = false;
                return ProgressOutcome { resume: true, event: None, handled };
            } else {
                self.suspended = true;
                return ProgressOutcome { resume: false, event: Some(WorkerEvent::Suspend), handled };
            }
        }
        self.focus = button_row_key(self.focus, 3, key);
        ProgressOutcome { resume: false, event: None, handled }
    }
}

} // verus!
