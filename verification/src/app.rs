//! The application state of the dual-pane browser: two panels, the active
//! side, the dialog and status line, and the pure decisions behind every key
//! stroke and confirmed action. All I/O — listing directories, moving bytes,
//! talking to shells — lives with the surrounding code, which feeds its
//! results back into these functions.

use vstd::prelude::*;
use crate::file_panel::{FilePanel, spec_adjust_scroll};
use crate::filesystem::{FileEntry, spec_join_path, join_path, is_dotdot, spec_decimal, push_decimal};

verus! {

/// Which panel has the focus.
#[derive(Clone, Copy, Debug, PartialEq, Eq, Structural)]
pub enum ActivePanel {
    Left,
    Right,
}

/// An action waiting for the user's confirmation.
#[derive(Debug, Clone)]
pub enum ConfirmationAction {
    Copy { source: FileEntry, dest_path: String },
    Move { source: FileEntry, dest_path: String },
    Delete { entry: FileEntry },
}

/// The application state, shells and file systems aside.
pub struct App {
    pub left_panel: FilePanel,
    pub right_panel: FilePanel,
    pub active_panel: ActivePanel,
    pub remote_connection: Option<String>,
    pub show_help: bool,
    pub show_terminal: bool,
    pub terminal_input_mode: bool,
    pub confirmation_dialog: Option<ConfirmationAction>,
    pub status_message: Option<String>,
    pub visible_rows: usize,
}

/// The panel that has the focus.
pub open spec fn spec_active(a: App) -> FilePanel {
    if a.active_panel == ActivePanel::Left {
        a.left_panel
    } else {
        a.right_panel
    }
}

/// The panel that does not have the focus.
pub open spec fn spec_inactive(a: App) -> FilePanel {
    if a.active_panel == ActivePanel::Left {
        a.right_panel
    } else {
        a.left_panel
    }
}

/// The state with the focused panel replaced.
pub open spec fn spec_with_active(a: App, p: FilePanel) -> App {
    if a.active_panel == ActivePanel::Left {
        App { left_panel: p, ..a }
    } else {
        App { right_panel: p, ..a }
    }
}

/// The selection moved one up, where it can move.
pub open spec fn spec_move_up(p: FilePanel) -> FilePanel {
    if p.selected_index > 0 {
        spec_adjust_scroll(
            FilePanel { selected_index: (p.selected_index - 1) as usize, ..p },
        )
    } else {
        p
    }
}

/// The selection moved one down, where it can move.
pub open spec fn spec_move_down(p: FilePanel) -> FilePanel {
    if p.entries@.len() > 0 && p.selected_index < p.entries@.len() - 1 {
        spec_adjust_scroll(
            FilePanel { selected_index: (p.selected_index + 1) as usize, ..p },
        )
    } else {
        p
    }
}

/// Both panels keep at least one visible row, so scrolling is well defined.
pub open spec fn app_wf(a: App) -> bool {
    a.left_panel.visible_rows >= 1 && a.right_panel.visible_rows >= 1
}

impl App {
    /// A fresh state over two already-listed panels, focused left, with
    /// nothing shown or pending.
    pub fn new(
        remote_connection: Option<String>,
        left_panel: FilePanel,
        right_panel: FilePanel,
    ) -> (a: App)
        ensures
            a.left_panel == left_panel,
            a.right_panel == right_panel,
            a.active_panel == ActivePanel::Left,
            a.remote_connection == remote_connection,
            !a.show_help,
            !a.show_terminal,
            !a.terminal_input_mode,
            a.confirmation_dialog is None,
            a.status_message is None,
            a.visible_rows == 20,
    {
        App {
            left_panel,
            right_panel,
            active_panel: ActivePanel::Left,
            remote_connection,
            show_help: false,
            show_terminal: false,
            terminal_input_mode: false,
            confirmation_dialog: None,
            status_message: None,
            visible_rows: 20,
        }
    }

    /// The focused panel.
    pub fn active_panel(&self) -> (r: &FilePanel)
        ensures
            *r == spec_active(*self),
    {
        match self.active_panel {
            ActivePanel::Left => &self.left_panel,
            ActivePanel::Right => &self.right_panel,
        }
    }

    /// The other panel.
    pub fn inactive_panel(&self) -> (r: &FilePanel)
        ensures
            *r == spec_inactive(*self),
    {
        match self.active_panel {
            ActivePanel::Left => &self.right_panel,
            ActivePanel::Right => &self.left_panel,
        }
    }

    /// The focused panel, for mutation.
    pub fn active_panel_mut(&mut self) -> (r: &mut FilePanel)
        ensures
            *r == spec_active(*old(self)),
            *final(self) == spec_with_active(*old(self), *final(r)),
    {
        match self.active_panel {
            ActivePanel::Left => &mut self.left_panel,
            ActivePanel::Right => &mut self.right_panel,
        }
    }

    /// Moves the focus to the other panel.
    pub fn toggle_active_panel(&mut self)
        ensures
            *final(self) == (App {
                active_panel: if old(self).active_panel == ActivePanel::Left {
                    ActivePanel::Right
                } else {
                    ActivePanel::Left
                },
                ..*old(self)
            }),
    {
        self.active_panel = match self.active_panel {
            ActivePanel::Left => ActivePanel::Right,
            ActivePanel::Right => ActivePanel::Left,
        };
    }

    /// Moves the selection one entry up in the focused panel.
    pub fn move_selection_up(&mut self)
        requires
            app_wf(*old(self)),
        ensures
            *final(self) == spec_with_active(*old(self), spec_move_up(spec_active(*old(self)))),
            app_wf(*final(self)),
    {
        let panel = self.active_panel_mut();
        if panel.selected_index > 0 {
            panel.selected_index = panel.selected_index - 1;
            panel.adjust_scroll();
        }
    }

    /// Moves the selection one entry down in the focused panel.
    pub fn move_selection_down(&mut self)
        requires
            app_wf(*old(self)),
        ensures
            *final(self) == spec_with_active(
                *old(self),
                spec_move_down(spec_active(*old(self))),
            ),
            app_wf(*final(self)),
    {
        let panel = self.active_panel_mut();
        if panel.entries.len() > 0 && panel.selected_index < panel.entries.len() - 1 {
            panel.selected_index = panel.selected_index + 1;
            panel.adjust_scroll();
        }
    }

    /// Puts the selection on the first entry and the window at the top.
    pub fn move_to_first(&mut self)
        ensures
            *final(self) == spec_with_active(
                *old(self),
                (FilePanel { selected_index: 0, scroll_offset: 0, ..spec_active(*old(self)) }),
            ),
    {
        let panel = self.active_panel_mut();
        panel.selected_index = 0;
        panel.scroll_offset = 0;
    }

    /// Puts the selection on the last entry.
    pub fn move_to_last(&mut self)
        requires
            app_wf(*old(self)),
        ensures
            *final(self) == spec_with_active(
                *old(self),
                ({
                    let p = spec_active(*old(self));
                    let last = if p.entries@.len() == 0 {
                        0int
                    } else {
                        p.entries@.len() - 1
                    };
                    spec_adjust_scroll(
                        FilePanel { selected_index: last as usize, ..p },
                    )
                }),
            ),
            app_wf(*final(self)),
    {
        let panel = self.active_panel_mut();
        panel.selected_index = if panel.entries.len() == 0 {
            0
        } else {
            panel.entries.len() - 1
        };
        panel.adjust_scroll();
    }

    /// Moves the selection one page up.
    pub fn page_up(&mut self)
        requires
            app_wf(*old(self)),
        ensures
            *final(self) == spec_with_active(
                *old(self),
                ({
                    let p = spec_active(*old(self));
                    let page = p.visible_rows - 1;
                    let sel = if p.selected_index >= page {
                        p.selected_index - page
                    } else {
                        0int
                    };
                    spec_adjust_scroll(FilePanel { selected_index: sel as usize, ..p })
                }),
            ),
            app_wf(*final(self)),
    {
        let panel = self.active_panel_mut();
        let page = panel.visible_rows - 1;
        panel.selected_index = if panel.selected_index >= page {
            panel.selected_index - page
        } else {
            0
        };
        panel.adjust_scroll();
    }

    /// Moves the selection one page down, no further than the last entry.
    pub fn page_down(&mut self)
        requires
            app_wf(*old(self)),
        ensures
            *final(self) == spec_with_active(
                *old(self),
                ({
                    let p = spec_active(*old(self));
                    let page = p.visible_rows - 1;
                    let cap = if p.entries@.len() == 0 {
                        0int
                    } else {
                        p.entries@.len() - 1
                    };
                    let sel = if p.selected_index + page <= cap {
                        p.selected_index + page
                    } else {
                        cap
                    };
                    spec_adjust_scroll(FilePanel { selected_index: sel as usize, ..p })
                }),
            ),
            app_wf(*final(self)),
    {
        let panel = self.active_panel_mut();
        let page = panel.visible_rows - 1;
        let cap = if panel.entries.len() == 0 {
            0
        } else {
            panel.entries.len() - 1
        };
        panel.selected_index = if cap >= page && panel.selected_index <= cap - page {
            panel.selected_index + page
        } else {
            cap
        };
        panel.adjust_scroll();
    }

    /// The directory the focused panel would enter: the selected entry's
    /// path, where that entry is a directory.
    pub fn enter_directory_target(&self) -> (r: Option<String>)
        ensures
            ({
                let p = spec_active(*self);
                let sel = p.selected_index as int;
                match r {
                    Some(path) => {
                        &&& sel < p.entries@.len()
                        &&& p.entries@[sel].is_dir
                        &&& path@ == p.entries@[sel].path@
                    },
                    None => sel >= p.entries@.len() || !(p.entries@[sel].is_dir),
                }
            }),
    {
        let panel = self.active_panel();
        match panel.selected_entry() {
            Some(entry) => {
                if entry.is_dir {
                    Some(entry.path.clone())
                } else {
                    None
                }
            },
            None => None,
        }
    }

    /// Flips the help popup.
    pub fn show_help(&mut self)
        ensures
            *final(self) == (App { show_help: !old(self).show_help, ..*old(self) }),
    {
        self.show_help = !self.show_help;
    }

    /// Flips the terminal pane and says so in the status line.
    pub fn toggle_terminal(&mut self)
        ensures
            final(self).show_terminal == !old(self).show_terminal,
            final(self).status_message matches Some(msg) && msg@ == (
            if old(self).show_terminal {
                "Terminal: OFF"@
            } else {
                "Terminal: ON"@
            }),
            *final(self) == (App {
                show_terminal: final(self).show_terminal,
                status_message: final(self).status_message,
                ..*old(self)
            }),
    {
        self.show_terminal = !self.show_terminal;
        self.status_message = Some(
            if self.show_terminal {
                String::from_str("Terminal: ON")
            } else {
                String::from_str("Terminal: OFF")
            },
        );
    }

    /// Hands the keyboard to the embedded shell.
    pub fn enter_terminal_input_mode(&mut self)
        ensures
            final(self).terminal_input_mode,
            final(self).status_message matches Some(msg) && msg@ == "Terminal input mode (Tab/Esc to exit)"@,
            *final(self) == (App {
                terminal_input_mode: true,
                status_message: final(self).status_message,
                ..*old(self)
            }),
    {
        self.terminal_input_mode = true;
        self.status_message = Some(String::from_str("Terminal input mode (Tab/Esc to exit)"));
    }

    /// Takes the keyboard back from the embedded shell.
    pub fn exit_terminal_input_mode(&mut self)
        ensures
            !final(self).terminal_input_mode,
            final(self).status_message matches Some(msg) && msg@ == "Navigation mode (Tab=switch panel, Enter=terminal input)"@,
            *final(self) == (App {
                terminal_input_mode: false,
                status_message: final(self).status_message,
                ..*old(self)
            }),
    {
        self.terminal_input_mode = false;
        self.status_message = Some(
            String::from_str("Navigation mode (Tab=switch panel, Enter=terminal input)"),
        );
    }

    /// Remembers the window height, on the state and both panels.
    pub fn set_visible_rows(&mut self, rows: usize)
        requires
            rows >= 1,
        ensures
            *final(self) == (App {
                visible_rows: rows,
                left_panel: (FilePanel { visible_rows: rows, ..old(self).left_panel }),
                right_panel: (FilePanel { visible_rows: rows, ..old(self).right_panel }),
                ..*old(self)
            }),
            app_wf(*final(self)),
    {
        self.visible_rows = rows;
        self.left_panel.visible_rows = rows;
        self.right_panel.visible_rows = rows;
    }

    /// Asks to copy the selected file to the other panel's directory: a
    /// confirmation dialog where a plain file is selected, a status message
    /// where nothing can be copied.
    pub fn copy_file(&mut self)
        ensures
            spec_request_effect(*old(self), *final(self), RequestKind::CopyRequest),
    {
        self.file_request(RequestKind::CopyRequest)
    }

    /// Asks to move the selected file to the other panel's directory.
    pub fn move_file(&mut self)
        ensures
            spec_request_effect(*old(self), *final(self), RequestKind::MoveRequest),
    {
        self.file_request(RequestKind::MoveRequest)
    }

    /// Asks to delete the selected entry.
    pub fn delete_file(&mut self)
        ensures
            spec_request_effect(*old(self), *final(self), RequestKind::DeleteRequest),
    {
        self.file_request(RequestKind::DeleteRequest)
    }

    fn file_request(&mut self, kind: RequestKind)
        ensures
            spec_request_effect(*old(self), *final(self), kind),
    {
        let has_entry = {
            let panel = self.active_panel();
            panel.selected_index < panel.entries.len()
        };
        if !has_entry {
            self.status_message = Some(String::from_str("No file selected"));
            return ;
        }
        let (entry, dest_dir) = {
            let panel = self.active_panel();
            let other = self.inactive_panel();
            (panel.entries[panel.selected_index].duplicate(), other.current_path.clone())
        };
        if is_dotdot(entry.name.as_str()) {
            self.status_message = Some(
                match kind {
                    RequestKind::CopyRequest => String::from_str(
                        "Cannot copy parent directory reference",
                    ),
                    RequestKind::MoveRequest => String::from_str(
                        "Cannot move parent directory reference",
                    ),
                    RequestKind::DeleteRequest => String::from_str(
                        "Cannot delete parent directory reference",
                    ),
                },
            );
            return ;
        }
        match kind {
            RequestKind::DeleteRequest => {
                self.confirmation_dialog = Some(ConfirmationAction::Delete { entry });
            },
            RequestKind::CopyRequest => {
                if entry.is_dir {
                    self.status_message = Some(
                        String::from_str("Directory copy not yet implemented"),
                    );
                } else {
                    let dest_path = join_path(dest_dir.as_str(), entry.name.as_str());
                    self.confirmation_dialog = Some(
                        ConfirmationAction::Copy { source: entry, dest_path },
                    );
                }
            },
            RequestKind::MoveRequest => {
                if entry.is_dir {
                    self.status_message = Some(
                        String::from_str("Directory move not yet implemented"),
                    );
                } else {
                    let dest_path = join_path(dest_dir.as_str(), entry.name.as_str());
                    self.confirmation_dialog = Some(
                        ConfirmationAction::Move { source: entry, dest_path },
                    );
                }
            },
        }
    }

    /// A placeholder: viewing is not built yet, and says so.
    pub fn view_file(&mut self)
        ensures
            final(self).status_message matches Some(msg) && msg@ == "View: Not yet implemented"@,
            *final(self) == (App { status_message: final(self).status_message, ..*old(self) }),
    {
        self.status_message = Some(String::from_str("View: Not yet implemented"));
    }

    /// A placeholder: editing is not built yet, and says so.
    pub fn edit_file(&mut self)
        ensures
            final(self).status_message matches Some(msg) && msg@ == "Edit: Not yet implemented"@,
            *final(self) == (App { status_message: final(self).status_message, ..*old(self) }),
    {
        self.status_message = Some(String::from_str("Edit: Not yet implemented"));
    }

    /// A placeholder: creating directories needs an input dialog that is not
    /// built yet, and says so.
    pub fn make_directory(&mut self)
        ensures
            final(self).status_message matches Some(msg) && msg@ == "MkDir: Not yet implemented (needs input dialog)"@,
            *final(self) == (App { status_message: final(self).status_message, ..*old(self) }),
    {
        self.status_message = Some(
            String::from_str("MkDir: Not yet implemented (needs input dialog)"),
        );
    }

    /// Drops a pending dialog and says so.
    pub fn cancel_confirmation(&mut self)
        ensures
            final(self).confirmation_dialog is None,
            final(self).status_message matches Some(msg) && msg@ == "Cancelled"@,
            *final(self) == (App {
                confirmation_dialog: None,
                status_message: final(self).status_message,
                ..*old(self)
            }),
    {
        self.confirmation_dialog = None;
        self.status_message = Some(String::from_str("Cancelled"));
    }

    /// Takes the pending dialog out, for the surrounding code to perform.
    pub fn take_confirmation(&mut self) -> (r: Option<ConfirmationAction>)
        ensures
            r == old(self).confirmation_dialog,
            *final(self) == (App { confirmation_dialog: None, ..*old(self) }),
    {
        let mut tmp: Option<ConfirmationAction> = None;
        core::mem::swap(&mut tmp, &mut self.confirmation_dialog);
        tmp
    }
}

/// Which file operation a key asked for.
#[derive(Clone, Copy, Debug, PartialEq, Eq, Structural)]
pub enum RequestKind {
    CopyRequest,
    MoveRequest,
    DeleteRequest,
}

/// What a copy, move or delete request does to the state: with no entry
/// under the selection only a status message; on the `..` entry only a
/// refusal; on a directory (for copy and move) only a notice; otherwise a
/// pending confirmation whose destination is the other panel's directory.
pub open spec fn spec_request_effect(a: App, b: App, kind: RequestKind) -> bool {
    let p = spec_active(a);
    if p.selected_index >= p.entries@.len() {
        &&& b == (App { status_message: b.status_message, ..a })
        &&& (b.status_message matches Some(m) && m@ == "No file selected"@)
    } else {
        let entry = p.entries@[p.selected_index as int];
        if entry.name@ == ".."@ {
            &&& b == (App { status_message: b.status_message, ..a })
            &&& (b.status_message matches Some(m) && m@ == (match kind {
                RequestKind::CopyRequest => "Cannot copy parent directory reference"@,
                RequestKind::MoveRequest => "Cannot move parent directory reference"@,
                RequestKind::DeleteRequest => "Cannot delete parent directory reference"@,
            }))
        } else if kind == RequestKind::DeleteRequest {
            &&& b == (App { confirmation_dialog: b.confirmation_dialog, ..a })
            &&& (b.confirmation_dialog matches Some(ConfirmationAction::Delete { entry: e })
                && e == entry)
        } else if entry.is_dir {
            &&& b == (App { status_message: b.status_message, ..a })
            &&& (b.status_message matches Some(m) && m@ == (if kind
                == RequestKind::CopyRequest {
                "Directory copy not yet implemented"@
            } else {
                "Directory move not yet implemented"@
            }))
        } else {
            let dest = spec_join_path(spec_inactive(a).current_path@, entry.name@);
            &&& b == (App { confirmation_dialog: b.confirmation_dialog, ..a })
            &&& (match (kind, b.confirmation_dialog) {
                (
                    RequestKind::CopyRequest,
                    Some(ConfirmationAction::Copy { source, dest_path }),
                ) => source == entry && dest_path@ == dest,
                (
                    RequestKind::MoveRequest,
                    Some(ConfirmationAction::Move { source, dest_path }),
                ) => source == entry && dest_path@ == dest,
                _ => false,
            })
        }
    }
}

/// How a confirmed action went, as the surrounding I/O code reports it; the
/// strings carry the error text to show.
#[derive(Debug)]
pub enum ConfirmOutcome {
    CopyDone(u64),
    CopyFailed(String),
    MoveDone(u64),
    MoveCopyFailed(String),
    MoveDeleteFailed(String),
    DeleteDone,
    DeleteFailed(String),
}

/// What to do after a confirmed action: the status line to show and which
/// panels must list their directory again.
pub struct ConfirmEffect {
    pub status: String,
    pub refresh_left: bool,
    pub refresh_right: bool,
}

/// The status text a confirmed action leaves, built from the entry name,
/// the byte count and the reported error text.
pub open spec fn spec_confirm_status(name: Seq<char>, outcome: ConfirmOutcome) -> Seq<char> {
    match outcome {
        ConfirmOutcome::CopyDone(bytes) => "Copied "@ + name + " ("@ + spec_decimal(bytes as int)
            + " bytes)"@,
        ConfirmOutcome::CopyFailed(e) => "Copy failed: "@ + e@,
        ConfirmOutcome::MoveDone(bytes) => "Moved "@ + name + " ("@ + spec_decimal(bytes as int)
            + " bytes)"@,
        ConfirmOutcome::MoveCopyFailed(e) => "Move failed: "@ + e@,
        ConfirmOutcome::MoveDeleteFailed(e) => "Copied but failed to delete source: "@ + e@,
        ConfirmOutcome::DeleteDone => "Deleted "@ + name,
        ConfirmOutcome::DeleteFailed(e) => "Delete failed: "@ + e@,
    }
}

/// Which panels list again after a confirmed action: the other panel after
/// a copy (it received the file), both after a full move, the other panel
/// when only the move's deletion failed, and the focused panel after a
/// delete; a failed action refreshes nothing.
pub open spec fn spec_confirm_refresh(active: ActivePanel, outcome: ConfirmOutcome) -> (
    bool,
    bool,
) {
    match outcome {
        ConfirmOutcome::CopyDone(_) => (active == ActivePanel::Right, active == ActivePanel::Left),
        ConfirmOutcome::MoveDone(_) => (true, true),
        ConfirmOutcome::MoveDeleteFailed(_) => (
            active == ActivePanel::Right,
            active == ActivePanel::Left,
        ),
        ConfirmOutcome::DeleteDone => (active == ActivePanel::Left, active == ActivePanel::Right),
        _ => (false, false),
    }
}

/// Decides the aftermath of a confirmed action, as `spec_confirm_status`
/// and `spec_confirm_refresh` describe.
pub fn confirm_effect(active: ActivePanel, name: &str, outcome: &ConfirmOutcome) -> (e:
    ConfirmEffect)
    ensures
        e.status@ == spec_confirm_status(name@, *outcome),
        (e.refresh_left, e.refresh_right) == spec_confirm_refresh(active, *outcome),
{
    let is_left = match active {
        ActivePanel::Left => true,
        ActivePanel::Right => false,
    };
    match outcome {
        ConfirmOutcome::CopyDone(bytes) => {
            let mut s = String::from_str("Copied ");
            s.append(name);
            s.append(" (");
            push_decimal(&mut s, *bytes as u128);
            s.append(" bytes)");
            ConfirmEffect { status: s, refresh_left: !is_left, refresh_right: is_left }
        },
        ConfirmOutcome::CopyFailed(err) => {
            let mut s = String::from_str("Copy failed: ");
            s.append(err.as_str());
            ConfirmEffect { status: s, refresh_left: false, refresh_right: false }
        },
        ConfirmOutcome::MoveDone(bytes) => {
            let mut s = String::from_str("Moved ");
            s.append(name);
            s.append(" (");
            push_decimal(&mut s, *bytes as u128);
            s.append(" bytes)");
            ConfirmEffect { status: s, refresh_left: true, refresh_right: true }
        },
        ConfirmOutcome::MoveCopyFailed(err) => {
            let mut s = String::from_str("Move failed: ");
            s.append(err.as_str());
            ConfirmEffect { status: s, refresh_left: false, refresh_right: false }
        },
        ConfirmOutcome::MoveDeleteFailed(err) => {
            let mut s = String::from_str("Copied but failed to delete source: ");
            s.append(err.as_str());
            ConfirmEffect { status: s, refresh_left: !is_left, refresh_right: is_left }
        },
        ConfirmOutcome::DeleteDone => {
            let mut s = String::from_str("Deleted ");
            s.append(name);
            ConfirmEffect { status: s, refresh_left: is_left, refresh_right: !is_left }
        },
        ConfirmOutcome::DeleteFailed(err) => {
            let mut s = String::from_str("Delete failed: ");
            s.append(err.as_str());
            ConfirmEffect { status: s, refresh_left: false, refresh_right: false }
        },
    }
}

/// The status text shown when the focus switches panels.
pub fn switch_panel_status(active: ActivePanel) -> (r: String)
    ensures
        active == ActivePanel::Left ==> r@ == "Active: Left panel"@,
        active == ActivePanel::Right ==> r@ == "Active: Right panel"@,
{
    match active {
        ActivePanel::Left => String::from_str("Active: Left panel"),
        ActivePanel::Right => String::from_str("Active: Right panel"),
    }
}

/// A key stroke, free of any input library's types.
#[derive(Clone, Copy, Debug, PartialEq, Eq, Structural)]
pub enum KeyInput {
    Char(char),
    Enter,
    Esc,
    Tab,
    Backspace,
    Up,
    Down,
    Left,
    Right,
    Home,
    End,
    PageUp,
    PageDown,
    F(u8),
    Other,
}

/// An arrow key forwarded to the embedded shell.
#[derive(Clone, Copy, Debug, PartialEq, Eq, Structural)]
pub enum ArrowKey {
    Up,
    Down,
    Left,
    Right,
}

/// What the event loop must do for one key stroke.
#[derive(Clone, Copy, Debug, PartialEq, Eq, Structural)]
pub enum Command {
    Nothing,
    Quit,
    ConfirmYes,
    ConfirmNo,
    ExitTerminalInput,
    SendChar(char),
    SendNewline,
    SendBackspace,
    SendArrow(ArrowKey),
    SwitchPanel,
    EnterTerminalInput,
    SelectionUp,
    SelectionDown,
    EnterDirectory,
    GoParent,
    MoveFirst,
    MoveLast,
    PageUp,
    PageDown,
    Help,
    Edit,
    CopyRequest,
    MoveRequest,
    MakeDirectory,
    DeleteRequest,
    ToggleTerminal,
}

/// The key binding table. With a dialog pending only `y` and `n` (or Esc)
/// count; with the keyboard handed to the terminal everything is forwarded
/// but Tab and Esc, which leave; otherwise the navigation bindings hold.
pub open spec fn spec_dispatch_key(
    dialog_pending: bool,
    show_terminal: bool,
    terminal_input_mode: bool,
    key: KeyInput,
) -> Command {
    if dialog_pending {
        match key {
            KeyInput::Char(c) => if c == 'y' || c == 'Y' {
                Command::ConfirmYes
            } else if c == 'n' || c == 'N' {
                Command::ConfirmNo
            } else {
                Command::Nothing
            },
            KeyInput::Esc => Command::ConfirmNo,
            _ => Command::Nothing,
        }
    } else if show_terminal && terminal_input_mode {
        match key {
            KeyInput::Tab => Command::ExitTerminalInput,
            KeyInput::Esc => Command::ExitTerminalInput,
            KeyInput::Char(c) => Command::SendChar(c),
            KeyInput::Enter => Command::SendNewline,
            KeyInput::Backspace => Command::SendBackspace,
            KeyInput::Up => Command::SendArrow(ArrowKey::Up),
            KeyInput::Down => Command::SendArrow(ArrowKey::Down),
            KeyInput::Left => Command::SendArrow(ArrowKey::Left),
            KeyInput::Right => Command::SendArrow(ArrowKey::Right),
            _ => Command::Nothing,
        }
    } else {
        match key {
            KeyInput::Char(c) => if c == 'q' {
                Command::Quit
            } else if c == 'h' {
                Command::Help
            } else if c == 'e' {
                Command::Edit
            } else if c == 'c' {
                Command::CopyRequest
            } else if c == 'm' {
                Command::MoveRequest
            } else if c == 'n' {
                Command::MakeDirectory
            } else if c == 'd' {
                Command::DeleteRequest
            } else if c == 't' {
                Command::ToggleTerminal
            } else {
                Command::Nothing
            },
            KeyInput::F(n) => if n == 10 {
                Command::Quit
            } else if n == 1 {
                Command::Help
            } else if n == 4 {
                Command::Edit
            } else if n == 5 {
                Command::CopyRequest
            } else if n == 6 {
                Command::MoveRequest
            } else if n == 7 {
                Command::MakeDirectory
            } else if n == 8 {
                Command::DeleteRequest
            } else if n == 9 {
                Command::ToggleTerminal
            } else {
                Command::Nothing
            },
            KeyInput::Tab => Command::SwitchPanel,
            KeyInput::Enter => if show_terminal {
                Command::EnterTerminalInput
            } else {
                Command::EnterDirectory
            },
            KeyInput::Up => Command::SelectionUp,
            KeyInput::Down => Command::SelectionDown,
            KeyInput::Backspace => Command::GoParent,
            KeyInput::Home => Command::MoveFirst,
            KeyInput::End => Command::MoveLast,
            KeyInput::PageUp => Command::PageUp,
            KeyInput::PageDown => Command::PageDown,
            _ => Command::Nothing,
        }
    }
}

/// Decides what one key stroke does, as `spec_dispatch_key` describes.
pub fn dispatch_key(
    dialog_pending: bool,
    show_terminal: bool,
    terminal_input_mode: bool,
    key: KeyInput,
) -> (r: Command)
    ensures
        r == spec_dispatch_key(dialog_pending, show_terminal, terminal_input_mode, key),
{
    if dialog_pending {
        match key {
            KeyInput::Char(c) => if c == 'y' || c == 'Y' {
                Command::ConfirmYes
            } else if c == 'n' || c == 'N' {
                Command::ConfirmNo
            } else {
                Command::Nothing
            },
            KeyInput::Esc => Command::ConfirmNo,
            _ => Command::Nothing,
        }
    } else if show_terminal && terminal_input_mode {
        match key {
            KeyInput::Tab => Command::ExitTerminalInput,
            KeyInput::Esc => Command::ExitTerminalInput,
            KeyInput::Char(c) => Command::SendChar(c),
            KeyInput::Enter => Command::SendNewline,
            KeyInput::Backspace => Command::SendBackspace,
            KeyInput::Up => Command::SendArrow(ArrowKey::Up),
            KeyInput::Down => Command::SendArrow(ArrowKey::Down),
            KeyInput::Left => Command::SendArrow(ArrowKey::Left),
            KeyInput::Right => Command::SendArrow(ArrowKey::Right),
            _ => Command::Nothing,
        }
    } else {
        match key {
            KeyInput::Char(c) => if c == 'q' {
                Command::Quit
            } else if c == 'h' {
                Command::Help
            } else if c == 'e' {
                Command::Edit
            } else if c == 'c' {
                Command::CopyRequest
            } else if c == 'm' {
                Command::MoveRequest
            } else if c == 'n' {
                Command::MakeDirectory
            } else if c == 'd' {
                Command::DeleteRequest
            } else if c == 't' {
                Command::ToggleTerminal
            } else {
                Command::Nothing
            },
            KeyInput::F(n) => if n == 10 {
                Command::Quit
            } else if n == 1 {
                Command::Help
            } else if n == 4 {
                Command::Edit
            } else if n == 5 {
                Command::CopyRequest
            } else if n == 6 {
                Command::MoveRequest
            } else if n == 7 {
                Command::MakeDirectory
            } else if n == 8 {
                Command::DeleteRequest
            } else if n == 9 {
                Command::ToggleTerminal
            } else {
                Command::Nothing
            },
            KeyInput::Tab => Command::SwitchPanel,
            KeyInput::Enter => if show_terminal {
                Command::EnterTerminalInput
            } else {
                Command::EnterDirectory
            },
            KeyInput::Up => Command::SelectionUp,
            KeyInput::Down => Command::SelectionDown,
            KeyInput::Backspace => Command::GoParent,
            KeyInput::Home => Command::MoveFirst,
            KeyInput::End => Command::MoveLast,
            KeyInput::PageUp => Command::PageUp,
            KeyInput::PageDown => Command::PageDown,
            _ => Command::Nothing,
        }
    }
}

} // verus!
