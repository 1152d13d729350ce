use dualpane::app::{
    confirm_effect, dispatch_key, switch_panel_status, ActivePanel, App, ArrowKey, Command,
    ConfirmOutcome, ConfirmationAction, KeyInput,
};
use dualpane::file_panel::FilePanel;
use dualpane::filesystem::FileEntry;

fn entry(name: &str, is_dir: bool) -> FileEntry {
    FileEntry {
        name: name.to_string(),
        path: format!("/tmp/{}", name),
        is_dir,
        size: 0,
        modified: None,
        permissions: 0o644,
    }
}

fn test_entries() -> Vec<FileEntry> {
    vec![
        entry("..", true),
        entry("dir_a", true),
        entry("dir_b", true),
        entry("file1.txt", false),
        entry("file2.txt", false),
    ]
}

fn test_panel() -> FilePanel {
    FilePanel::new("/tmp".to_string(), test_entries(), false)
}

fn test_app() -> App {
    App::new(None, test_panel(), test_panel())
}

#[test]
fn test_app_new() {
    let app = test_app();
    assert_eq!(app.active_panel, ActivePanel::Left);
    assert!(app.remote_connection.is_none());
}

#[test]
fn test_app_with_remote_string() {
    let app = App::new(Some("user@host".to_string()), test_panel(), test_panel());
    assert_eq!(app.remote_connection, Some("user@host".to_string()));
}

#[test]
fn test_toggle_panel() {
    let mut app = test_app();
    assert_eq!(app.active_panel, ActivePanel::Left);
    app.toggle_active_panel();
    assert_eq!(app.active_panel, ActivePanel::Right);
    app.toggle_active_panel();
    assert_eq!(app.active_panel, ActivePanel::Left);
}

#[test]
fn test_navigation() {
    let mut app = test_app();
    let initial_index = app.active_panel().selected_index;

    app.move_selection_down();
    if app.active_panel().entries.len() > 1 {
        assert_eq!(app.active_panel().selected_index, initial_index + 1);
    }

    app.move_selection_up();
    assert_eq!(app.active_panel().selected_index, initial_index);
}

#[test]
fn test_move_to_bounds() {
    let mut app = test_app();

    app.move_to_first();
    assert_eq!(app.active_panel().selected_index, 0);

    app.move_to_last();
    assert_eq!(
        app.active_panel().selected_index,
        app.active_panel().entries.len().saturating_sub(1)
    );
}

#[test]
fn test_selected_entry() {
    let panel = test_panel();
    let entry = panel.selected_entry().unwrap();
    assert_eq!(entry.name, "..");
}

#[test]
fn test_scroll_adjustment() {
    let mut panel = test_panel();
    panel.visible_rows = 2;

    panel.selected_index = 3;
    panel.adjust_scroll();

    assert!(panel.selected_index < panel.scroll_offset + panel.visible_rows);
}

#[test]
fn test_visible_entries() {
    let mut panel = test_panel();
    panel.visible_rows = 2;
    panel.scroll_offset = 1;

    let visible: Vec<_> = panel.visible_entries();

    assert_eq!(visible.len(), 2);
    assert_eq!(visible[0].0, 1);
}

#[test]
fn test_page_movement() {
    let mut app = test_app();
    app.set_visible_rows(3);
    app.page_down();
    assert_eq!(app.active_panel().selected_index, 2);
    app.page_down();
    assert_eq!(app.active_panel().selected_index, 4);
    app.page_up();
    assert_eq!(app.active_panel().selected_index, 2);
}

#[test]
fn test_copy_request_opens_dialog() {
    let mut app = test_app();
    // select file1.txt
    app.active_panel_mut().selected_index = 3;
    app.copy_file();
    match app.confirmation_dialog {
        Some(ConfirmationAction::Copy { ref source, ref dest_path }) => {
            assert_eq!(source.name, "file1.txt");
            assert_eq!(dest_path, "/tmp/file1.txt");
        }
        ref other => panic!("unexpected dialog: {:?}", other),
    }
}

#[test]
fn test_copy_request_refuses_parent_and_directories() {
    let mut app = test_app();
    app.copy_file();
    assert!(app.confirmation_dialog.is_none());
    assert_eq!(
        app.status_message.as_deref(),
        Some("Cannot copy parent directory reference")
    );

    let mut app = test_app();
    app.active_panel_mut().selected_index = 1;
    app.copy_file();
    assert!(app.confirmation_dialog.is_none());
    assert_eq!(
        app.status_message.as_deref(),
        Some("Directory copy not yet implemented")
    );
}

#[test]
fn test_delete_request_opens_dialog() {
    let mut app = test_app();
    app.active_panel_mut().selected_index = 4;
    app.delete_file();
    match app.confirmation_dialog {
        Some(ConfirmationAction::Delete { ref entry }) => {
            assert_eq!(entry.name, "file2.txt");
        }
        ref other => panic!("unexpected dialog: {:?}", other),
    }
}

#[test]
fn test_cancel_confirmation() {
    let mut app = test_app();
    app.active_panel_mut().selected_index = 3;
    app.move_file();
    assert!(app.confirmation_dialog.is_some());
    app.cancel_confirmation();
    assert!(app.confirmation_dialog.is_none());
    assert_eq!(app.status_message.as_deref(), Some("Cancelled"));
}

#[test]
fn test_terminal_toggles_and_messages() {
    let mut app = test_app();
    app.toggle_terminal();
    assert!(app.show_terminal);
    assert_eq!(app.status_message.as_deref(), Some("Terminal: ON"));
    app.enter_terminal_input_mode();
    assert!(app.terminal_input_mode);
    app.exit_terminal_input_mode();
    assert!(!app.terminal_input_mode);
    app.toggle_terminal();
    assert_eq!(app.status_message.as_deref(), Some("Terminal: OFF"));
}

#[test]
fn test_enter_directory_target() {
    let mut app = test_app();
    app.active_panel_mut().selected_index = 1;
    assert_eq!(app.enter_directory_target(), Some("/tmp/dir_a".to_string()));
    app.active_panel_mut().selected_index = 3;
    assert_eq!(app.enter_directory_target(), None);
}

#[test]
fn test_dispatch_key_navigation() {
    assert_eq!(dispatch_key(false, false, false, KeyInput::Char('q')), Command::Quit);
    assert_eq!(dispatch_key(false, false, false, KeyInput::F(10)), Command::Quit);
    assert_eq!(dispatch_key(false, false, false, KeyInput::Tab), Command::SwitchPanel);
    assert_eq!(dispatch_key(false, false, false, KeyInput::Enter), Command::EnterDirectory);
    assert_eq!(dispatch_key(false, true, false, KeyInput::Enter), Command::EnterTerminalInput);
    assert_eq!(dispatch_key(false, false, false, KeyInput::Up), Command::SelectionUp);
    assert_eq!(dispatch_key(false, false, false, KeyInput::Char('c')), Command::CopyRequest);
    assert_eq!(dispatch_key(false, false, false, KeyInput::F(8)), Command::DeleteRequest);
    assert_eq!(dispatch_key(false, false, false, KeyInput::Left), Command::Nothing);
}

#[test]
fn test_dispatch_key_dialog() {
    assert_eq!(dispatch_key(true, false, false, KeyInput::Char('y')), Command::ConfirmYes);
    assert_eq!(dispatch_key(true, false, false, KeyInput::Char('N')), Command::ConfirmNo);
    assert_eq!(dispatch_key(true, false, false, KeyInput::Esc), Command::ConfirmNo);
    assert_eq!(dispatch_key(true, false, false, KeyInput::Char('x')), Command::Nothing);
}

#[test]
fn test_dispatch_key_terminal_input() {
    assert_eq!(dispatch_key(false, true, true, KeyInput::Tab), Command::ExitTerminalInput);
    assert_eq!(dispatch_key(false, true, true, KeyInput::Char('l')), Command::SendChar('l'));
    assert_eq!(dispatch_key(false, true, true, KeyInput::Enter), Command::SendNewline);
    assert_eq!(
        dispatch_key(false, true, true, KeyInput::Up),
        Command::SendArrow(ArrowKey::Up)
    );
}

#[test]
fn test_confirm_effect_messages() {
    let e = confirm_effect(ActivePanel::Left, "a.txt", &ConfirmOutcome::CopyDone(13));
    assert_eq!(e.status, "Copied a.txt (13 bytes)");
    assert!(!e.refresh_left);
    assert!(e.refresh_right);

    let e = confirm_effect(ActivePanel::Right, "a.txt", &ConfirmOutcome::MoveDone(2048));
    assert_eq!(e.status, "Moved a.txt (2048 bytes)");
    assert!(e.refresh_left);
    assert!(e.refresh_right);

    let e = confirm_effect(ActivePanel::Left, "a.txt", &ConfirmOutcome::DeleteDone);
    assert_eq!(e.status, "Deleted a.txt");
    assert!(e.refresh_left);
    assert!(!e.refresh_right);

    let e = confirm_effect(
        ActivePanel::Left,
        "a.txt",
        &ConfirmOutcome::CopyFailed("boom".to_string()),
    );
    assert_eq!(e.status, "Copy failed: boom");
    assert!(!e.refresh_left && !e.refresh_right);
}

#[test]
fn test_switch_panel_status() {
    assert_eq!(switch_panel_status(ActivePanel::Left), "Active: Left panel");
    assert_eq!(switch_panel_status(ActivePanel::Right), "Active: Right panel");
}

#[test]
fn test_set_entries_clamps_selection() {
    let mut panel = test_panel();
    panel.selected_index = 4;
    panel.set_entries(vec![entry("..", true), entry("only.txt", false)]);
    assert_eq!(panel.selected_index, 1);
    panel.set_entries(Vec::new());
    assert_eq!(panel.selected_index, 0);
}

#[test]
fn test_change_directory() {
    let mut panel = test_panel();
    panel.selected_index = 3;
    panel.scroll_offset = 2;
    let subdir = "/tmp/dir_a".to_string();
    panel.change_directory(subdir.clone(), vec![entry("..", true)]);
    assert_eq!(panel.current_path, subdir);
    assert_eq!(panel.selected_index, 0);
    assert_eq!(panel.scroll_offset, 0);
    assert_eq!(panel.entries.len(), 1);
}

#[test]
fn test_panel_creation() {
    let panel = test_panel();
    // ..  dir_a  dir_b  file1.txt  file2.txt
    assert_eq!(panel.entries.len(), 5);
    assert_eq!(panel.selected_index, 0);
    assert_eq!(panel.scroll_offset, 0);
}

#[test]
fn test_refresh() {
    let mut panel = test_panel();
    let old_count = panel.entries.len();
    let mut entries = test_entries();
    entries.push(entry("new_file.txt", false));
    panel.set_entries(entries);
    assert_eq!(panel.entries.len(), old_count + 1);
}
