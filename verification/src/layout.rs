//! The layout of the file manager's window: two file panels side by side,
//! one of which may be replaced by the quick viewer, and which of the two
//! visible slots has the focus.  Also what the keys that no panel, dialog
//! or command bar took do to the layout and the program.

use vstd::prelude::*;
use crate::paths::{path_parent, parent};

verus! {

/// The id of the quick viewer; the file panels are 0 and 1.
pub const QUICK_VIEW: usize = 2;

/// The keys the window handles itself.
#[derive(Debug, Clone, Copy, PartialEq, Eq, Structural)]
pub enum AppKey {
    Enter,
    Quit,
    CtrlC,
    CtrlL,
    CtrlO,
    CtrlU,
    CtrlZ,
    Esc,
    Tab,
    BackTab,
    AltQ,
    AltI,
    AltO,
    Other,
}

/// What the window does after a key or a signal.
#[derive(Debug, Clone, Copy, PartialEq, Eq, Structural)]
pub enum AppAction {
    Continue,
    /// Quit, writing the working directory of this panel (an id) where the
    /// user asked it to be written.
    Quit(usize),
    CtrlC,
    Redraw,
    CtrlZ,
    CtrlO,
    ExitCtrlO,
    SigTerm,
    SigCont,
    /// Close the command bar.
    Esc,
    /// Show, or stop showing, the quick viewer on the selected entry of this
    /// panel.
    ToggleQuickView(usize),
    /// Change the working directory of panel `.1` to that of panel `.0`.
    SyncCwd(usize, usize),
    /// Change the working directory of panel `.1` to the selected directory
    /// of panel `.0` (or the parent of its working directory).
    SyncSelected(usize, usize),
}

/// The signals the window handles.
#[derive(Debug, Clone, Copy, PartialEq, Eq, Structural)]
pub enum AppSignal {
    Winch,
    Int,
    Term,
    Cont,
}

/// The action for a signal.
pub fn signal_action(signal: AppSignal) -> (r: AppAction)
    ensures
        r == match signal {
            AppSignal::Winch => AppAction::Continue,
            AppSignal::Int => AppAction::CtrlC,
            AppSignal::Term => AppAction::SigTerm,
            AppSignal::Cont => AppAction::SigCont,
        },
{
    match signal {
        AppSignal::Winch => AppAction::Continue,
        AppSignal::Int => AppAction::CtrlC,
        AppSignal::Term => AppAction::SigTerm,
        AppSignal::Cont => AppAction::SigCont,
    }
}

/// The other of the two visible slots.
pub open spec fn flip(slot: int) -> int {
    if slot == 0 {
        1
    } else {
        0
    }
}

/// `s` with the entries at `i` and `j` exchanged.
pub open spec fn swapped(s: Seq<usize>, i: int, j: int) -> Seq<usize> {
    s.update(i, s[j]).update(j, s[i])
}

/// A layout as plain values: the panel id in each slot (slots 0 and 1 are
/// shown, slot 2 is hidden), the focused slot, the quick viewer's slot, and
/// whether the panels are hidden to show the terminal (ctrl-o).
pub type LayoutView = (Seq<usize>, int, int, bool);

/// A layout is valid: the slots hold each id once, the focus is on a shown
/// slot, and the quick viewer is where it is said to be.
pub open spec fn layout_wf(v: LayoutView) -> bool {
    &&& v.0.len() == 3
    &&& 0 <= v.1 < 2
    &&& 0 <= v.2 < 3
    &&& v.0[v.2] == QUICK_VIEW
    &&& forall|i: int| 0 <= i < 3 ==> #[trigger] v.0[i] < 3
    &&& v.0[0] != v.0[1] && v.0[1] != v.0[2] && v.0[0] != v.0[2]
}

/// The slot whose panel the commands that change another panel act on:
/// the other shown slot, or the hidden slot while the quick viewer is
/// shown.
pub open spec fn other_slot(v: LayoutView) -> int {
    if v.2 == 2 {
        flip(v.1)
    } else {
        2
    }
}

/// The slot of the file panel that file commands act on: the focused one,
/// or the other shown one when the quick viewer has the focus.
pub open spec fn file_slot(v: LayoutView) -> int {
    if v.2 == v.1 {
        flip(v.1)
    } else {
        v.1
    }
}

/// The layout and action after `key`.
pub open spec fn key_step(v: LayoutView, key: AppKey) -> (LayoutView, AppAction) {
    let (s, f, q, ctrl_o) = v;
    if ctrl_o {
        match key {
            AppKey::Enter => ((s, f, q, false), AppAction::ExitCtrlO),
            AppKey::CtrlC => (v, AppAction::CtrlC),
            AppKey::CtrlZ => (v, AppAction::CtrlZ),
            _ => (v, AppAction::Continue),
        }
    } else {
        match key {
            AppKey::Quit => (v, AppAction::Quit(s[file_slot(v)])),
            AppKey::CtrlC => (v, AppAction::CtrlC),
            AppKey::CtrlL => (v, AppAction::Redraw),
            AppKey::CtrlZ => (v, AppAction::CtrlZ),
            AppKey::CtrlO => ((s, f, q, true), AppAction::CtrlO),
            AppKey::Esc => (v, AppAction::Esc),
            AppKey::Tab | AppKey::BackTab => ((s, flip(f), q, false), AppAction::Continue),
            AppKey::CtrlU => (
                (swapped(s, 0, 1), flip(f), if q < 2 { flip(q) } else { q }, false),
                AppAction::Continue,
            ),
            AppKey::AltQ => {
                if q < 2 {
                    let s2 = swapped(s, q, 2);
                    ((s2, f, 2, false), AppAction::ToggleQuickView(s2[f]))
                } else {
                    let s2 = swapped(s, flip(f), 2);
                    ((s2, f, flip(f), false), AppAction::ToggleQuickView(s2[f]))
                }
            },
            AppKey::AltI => (v, AppAction::SyncCwd(s[f], s[other_slot(v)])),
            AppKey::AltO => (v, AppAction::SyncSelected(s[f], s[other_slot(v)])),
            AppKey::Enter | AppKey::Other => (v, AppAction::Continue),
        }
    }
}

/// The window's layout.
#[derive(Debug)]
pub struct AppLayout {
    pub panels: Vec<usize>,
    pub focus: usize,
    pub quickviewer: usize,
    pub ctrl_o: bool,
}

impl View for AppLayout {
    type V = LayoutView;

    open spec fn view(&self) -> LayoutView {
        (self.panels@, self.focus as int, self.quickviewer as int, self.ctrl_o)
    }
}

fn swap_slots(s: &mut Vec<usize>, i: usize, j: usize)
    requires
        i < old(s).len(),
        j < old(s).len(),
    ensures
        final(s)@ == swapped(old(s)@, i as int, j as int),
{
    let a = s[i];
    let b = s[j];
    s.set(i, b);
    s.set(j, a);
}

impl AppLayout {
    /// The starting layout: the file panels shown, the first focused.
    pub fn new() -> (r: AppLayout)
        ensures
            layout_wf(r@),
            r@ == (seq![0usize, 1usize, 2usize], 0int, 2int, false),
    {
        let mut panels: Vec<usize> = Vec::new();
        panels.push(0);
        panels.push(1);
        panels.push(2);
        AppLayout { panels, focus: 0, quickviewer: 2, ctrl_o: false }
    }

    /// The id of the panel in `slot`.
    pub fn panel_at(&self, slot: usize) -> (r: usize)
        requires
            layout_wf(self@),
            slot < 3,
        ensures
            r == self@.0[slot as int],
    {
        self.panels[slot]
    }

    /// The id of the focused panel.
    pub fn focused(&self) -> (r: usize)
        requires
            layout_wf(self@),
        ensures
            r == self@.0[self@.1],
    {
        self.panels[self.focus]
    }

    /// The id of the file panel that file commands act on.
    pub fn file_panel(&self) -> (r: usize)
        requires
            layout_wf(self@),
        ensures
            r == self@.0[file_slot(self@)],
            r != QUICK_VIEW,
    {
        let slot = if self.quickviewer == self.focus {
            1 - self.focus
        } else {
            self.focus
        };
        self.panels[slot]
    }

    /// The id of the panel that the commands acting on another panel change
    /// (the destination of a copy, for one).
    pub fn other_panel(&self) -> (r: usize)
        requires
            layout_wf(self@),
        ensures
            r == self@.0[other_slot(self@)],
    {
        let slot = if self.quickviewer == 2 {
            1 - self.focus
        } else {
            2
        };
        self.panels[slot]
    }

    /// Handles a key that nothing else took.
    pub fn handle_key(&mut self, key: AppKey) -> (r: AppAction)
        requires
            layout_wf(old(self)@),
        ensures
            layout_wf(final(self)@),
            (final(self)@, r) == key_step(old(self)@, key),
    {
        let ghost v = self@;
        if self.ctrl_o {
            return match key {
                AppKey::Enter => {
                    self.ctrl_o = false;
                    AppAction::ExitCtrlO
                },
                AppKey::CtrlC => AppAction::CtrlC,
                AppKey::CtrlZ => AppAction::CtrlZ,
                _ => AppAction::Continue,
            };
        }
        match key {
            AppKey::Quit => {
                let slot = if self.quickviewer == self.focus {
                    1 - self.focus
                } else {
                    self.focus
                };
                AppAction::Quit(self.panels[slot])
            },
            AppKey::CtrlC => AppAction::CtrlC,
            AppKey::CtrlL => AppAction::Redraw,
            AppKey::CtrlZ => AppAction::CtrlZ,
            AppKey::CtrlO => {
                self.ctrl_o = true;
                AppAction::CtrlO
            },
            AppKey::Esc => AppAction::Esc,
            AppKey::Tab | AppKey::BackTab => {
                self.focus = 1 - self.focus;
                AppAction::Continue
            },
            AppKey::CtrlU => {
                swap_slots(&mut self.panels, 0, 1);
                self.focus = 1 - self.focus;
                if self.quickviewer < 2 {
                    self.quickviewer = 1 - self.quickviewer;
                }
                AppAction::Continue
            },
            AppKey::AltQ => {
                if self.quickviewer < 2 {
                    swap_slots(&mut self.panels, self.quickviewer, 2);
                    self.quickviewer = 2;
                } else {
                    let q = 1 - self.focus;
                    swap_slots(&mut self.panels, q, 2);
                    self.quickviewer = q;
                }
                AppAction::ToggleQuickView(self.panels[self.focus])
            },
            AppKey::AltI => {
                let other = if self.quickviewer == 2 {
                    1 - self.focus
                } else {
                    2
                };
                AppAction::SyncCwd(self.panels[self.focus], self.panels[other])
            },
            AppKey::AltO => {
                let other = if self.quickviewer == 2 {
                    1 - self.focus
                } else {
                    2
                };
                AppAction::SyncSelected(self.panels[self.focus], self.panels[other])
            },
            AppKey::Enter | AppKey::Other => AppAction::Continue,
        }
    }
}

/// The directory that alt-o sends the other panel to:
/// the selected entry when it is a directory, else the parent of the
/// working directory (or the working directory itself at the root).
pub fn selected_dir_target(cwd: &str, selected: Option<(&str, bool)>) -> (r: String)
    ensures
        r@ == match selected {
            Some((file, true)) => file@,
            _ => match path_parent(cwd@) {
                Some(p) => p,
                None => cwd@,
            },
        },
{
    match selected {
        Some((file, true)) => file.to_string(),
        _ => match parent(cwd) {
            Some(p) => p,
            None => cwd.to_string(),
        },
    }
}

/// Two tabs give back the layout.
pub proof fn law_tab_twice(v: LayoutView)
    requires
        layout_wf(v),
        !v.3,
    ensures
        key_step(key_step(v, AppKey::Tab).0, AppKey::Tab).0 == v,
{
}

/// Swapping the panels twice gives back the layout.
pub proof fn law_swap_twice(v: LayoutView)
    requires
        layout_wf(v),
        !v.3,
    ensures
        key_step(key_step(v, AppKey::CtrlU).0, AppKey::CtrlU).0 == v,
{
    let s = v.0;
    assert(swapped(swapped(s, 0, 1), 0, 1) =~= s);
}

/// Showing the quick viewer and hiding it again gives back the layout.
pub proof fn law_quick_view_round_trip(v: LayoutView)
    requires
        layout_wf(v),
        !v.3,
        v.2 == 2,
    ensures
        layout_wf(key_step(v, AppKey::AltQ).0),
        key_step(v, AppKey::AltQ).0.2 == flip(v.1),
        key_step(key_step(v, AppKey::AltQ).0, AppKey::AltQ).0 == v,
{
    let s = v.0;
    let q = flip(v.1);
    assert(swapped(swapped(s, q, 2), q, 2) =~= s);
}

/// Every key keeps the layout valid and the file commands on a file panel.
pub proof fn law_layout_stays_valid(v: LayoutView, key: AppKey)
    requires
        layout_wf(v),
    ensures
        layout_wf(key_step(v, key).0),
        key_step(v, key).0.0[file_slot(key_step(v, key).0)] != QUICK_VIEW,
{
    let w = key_step(v, key).0;
    assert(w.0.len() == 3);
    assert(w.0[file_slot(w)] != QUICK_VIEW);
}

} // verus!
