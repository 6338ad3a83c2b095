use std::collections::BTreeSet;

use stage_rs::app::{App, Command, DiffState, DiffViewMode, Message, Overlay, Panel, PendingAction, RebaseAction};
use stage_rs::diff::Hunk;
use stage_rs::status::{ChangeKind, FileEntry, FileStatus};
use stage_rs::text_input::{char_to_byte_idx, TextInput};
use stage_rs::theme::Theme;
use stage_rs::app_effects::{editor_choice, editor_command, rebase_editor_script, EditorOutcome};
use stage_rs::input::poll_event_overlay_only;
use stage_rs::keymap::{KeyCode, KeyEvent, KeyModifiers};
use stage_rs::layout::centered_rect;

// ── TextInput ──

#[test]
fn test_text_input_new_empty() {
    let ti = TextInput::new("");
    assert_eq!(ti.lines, vec![""]);
    assert_eq!(ti.cursor_row, 0);
    assert_eq!(ti.cursor_col, 0);
}

#[test]
fn test_text_input_new_single_line() {
    let ti = TextInput::new("hello");
    assert_eq!(ti.lines, vec!["hello"]);
    assert_eq!(ti.cursor_row, 0);
    assert_eq!(ti.cursor_col, 5);
}

#[test]
fn test_text_input_new_multiline() {
    let ti = TextInput::new("first\nsecond\nthird");
    assert_eq!(ti.lines, vec!["first", "second", "third"]);
    assert_eq!(ti.cursor_row, 2);
    assert_eq!(ti.cursor_col, 5);
}

#[test]
fn test_text_input_insert_char() {
    let mut ti = TextInput::new("");
    ti.insert_char('a');
    ti.insert_char('b');
    assert_eq!(ti.to_string(), "ab");
    assert_eq!(ti.cursor_col, 2);
}

#[test]
fn test_text_input_insert_char_mid_line() {
    let mut ti = TextInput::new("ac");
    ti.cursor_col = 1; // between a and c
    ti.insert_char('b');
    assert_eq!(ti.to_string(), "abc");
    assert_eq!(ti.cursor_col, 2);
}

#[test]
fn test_text_input_insert_newline() {
    let mut ti = TextInput::new("hello world");
    ti.cursor_col = 5;
    ti.insert_newline();
    assert_eq!(ti.lines, vec!["hello", " world"]);
    assert_eq!(ti.cursor_row, 1);
    assert_eq!(ti.cursor_col, 0);
}

#[test]
fn test_text_input_backspace_mid_line() {
    let mut ti = TextInput::new("abc");
    ti.cursor_col = 2;
    ti.backspace();
    assert_eq!(ti.to_string(), "ac");
    assert_eq!(ti.cursor_col, 1);
}

#[test]
fn test_text_input_backspace_start_of_line() {
    let mut ti = TextInput::new("first\nsecond");
    ti.cursor_row = 1;
    ti.cursor_col = 0;
    ti.backspace();
    assert_eq!(ti.lines, vec!["firstsecond"]);
    assert_eq!(ti.cursor_row, 0);
    assert_eq!(ti.cursor_col, 5);
}

#[test]
fn test_text_input_backspace_at_start_does_nothing() {
    let mut ti = TextInput::new("hello");
    ti.cursor_col = 0;
    ti.backspace();
    assert_eq!(ti.to_string(), "hello");
}

#[test]
fn test_text_input_move_left() {
    let mut ti = TextInput::new("abc");
    ti.cursor_col = 2;
    ti.move_left();
    assert_eq!(ti.cursor_col, 1);
    ti.move_left();
    assert_eq!(ti.cursor_col, 0);
    ti.move_left(); // at start, should not go negative
    assert_eq!(ti.cursor_col, 0);
}

#[test]
fn test_text_input_move_right() {
    let mut ti = TextInput::new("abc");
    ti.cursor_col = 0;
    ti.move_right();
    assert_eq!(ti.cursor_col, 1);
    ti.move_right();
    ti.move_right();
    assert_eq!(ti.cursor_col, 3);
    ti.move_right(); // at end, should not go past
    assert_eq!(ti.cursor_col, 3);
}

#[test]
fn test_text_input_move_up_down() {
    let mut ti = TextInput::new("short\nlong line here");
    ti.cursor_row = 1;
    ti.cursor_col = 14;
    ti.move_up();
    assert_eq!(ti.cursor_row, 0);
    assert_eq!(ti.cursor_col, 5); // clamped to shorter line
    ti.move_down();
    assert_eq!(ti.cursor_row, 1);
    assert_eq!(ti.cursor_col, 5); // stays clamped
}

#[test]
fn test_text_input_move_up_at_top() {
    let mut ti = TextInput::new("only");
    ti.cursor_row = 0;
    ti.move_up();
    assert_eq!(ti.cursor_row, 0);
}

#[test]
fn test_text_input_move_down_at_bottom() {
    let mut ti = TextInput::new("only");
    ti.move_down();
    assert_eq!(ti.cursor_row, 0);
}

#[test]
fn test_text_input_move_home_end() {
    let mut ti = TextInput::new("hello");
    ti.cursor_col = 3;
    ti.move_home();
    assert_eq!(ti.cursor_col, 0);
    ti.move_end();
    assert_eq!(ti.cursor_col, 5);
}

#[test]
fn test_text_input_is_empty() {
    assert!(TextInput::new("").is_empty());
    assert!(TextInput::new("   ").is_empty());
    assert!(TextInput::new("  \n  \n  ").is_empty());
    assert!(!TextInput::new("hello").is_empty());
    assert!(!TextInput::new("\nhello\n").is_empty());
}

#[test]
fn test_text_input_to_string() {
    let ti = TextInput::new("line1\nline2");
    assert_eq!(ti.to_string(), "line1\nline2");
}

#[test]
fn test_text_input_unicode() {
    let mut ti = TextInput::new("héllo");
    // new() uses the byte length for the initial cursor_col
    assert_eq!(ti.cursor_col, 6);
    // insert_char works with char indexing
    ti.cursor_col = 1;
    ti.insert_char('x');
    assert_eq!(ti.to_string(), "hxéllo");
}

#[test]
fn text_input_round_trip_keeps_trailing_newline() {
    let ti = TextInput::new("a\n\nb\n");
    assert_eq!(ti.lines, vec!["a", "", "b", ""]);
    assert_eq!(ti.to_string(), "a\n\nb\n");
}

#[test]
fn text_input_backspace_at_very_start_of_second_empty_line() {
    let mut ti = TextInput::new("ab\n");
    assert_eq!((ti.cursor_row, ti.cursor_col), (1, 0));
    ti.backspace();
    assert_eq!(ti.lines, vec!["ab"]);
    assert_eq!((ti.cursor_row, ti.cursor_col), (0, 2));
}

// ── char_to_byte_idx ──

#[test]
fn test_char_to_byte_idx_ascii() {
    assert_eq!(char_to_byte_idx("hello", 0), 0);
    assert_eq!(char_to_byte_idx("hello", 3), 3);
    assert_eq!(char_to_byte_idx("hello", 5), 5);
}

#[test]
fn test_char_to_byte_idx_unicode() {
    let s = "héllo"; // é is 2 bytes in UTF-8
    assert_eq!(char_to_byte_idx(s, 0), 0);
    assert_eq!(char_to_byte_idx(s, 1), 1); // 'h'
    assert_eq!(char_to_byte_idx(s, 2), 3); // after 'é' (2 bytes)
}

#[test]
fn test_char_to_byte_idx_past_end() {
    assert_eq!(char_to_byte_idx("hi", 10), 2); // returns s.len()
}

#[test]
fn char_to_byte_idx_four_byte_char() {
    assert_eq!(char_to_byte_idx("a😀b", 2), 5);
    assert_eq!(char_to_byte_idx("", 0), 0);
}

// ── RebaseAction ──

#[test]
fn test_rebase_action_cycle() {
    assert_eq!(RebaseAction::Pick.cycle(), RebaseAction::Squash);
    assert_eq!(RebaseAction::Squash.cycle(), RebaseAction::Drop);
    assert_eq!(RebaseAction::Drop.cycle(), RebaseAction::Pick);
}

#[test]
fn test_rebase_action_label() {
    assert_eq!(RebaseAction::Pick.label(), "pick");
    assert_eq!(RebaseAction::Squash.label(), "squash");
    assert_eq!(RebaseAction::Drop.label(), "drop");
}

#[test]
fn test_rebase_action_full_cycle() {
    let action = RebaseAction::Pick;
    let cycled = action.cycle().cycle().cycle();
    assert_eq!(cycled, RebaseAction::Pick);
}

// ── Overlay ──

#[test]
fn test_overlay_is_active() {
    assert!(!Overlay::Closed.is_active());
    assert!(Overlay::Confirm {
        message: "test".into(),
        action: PendingAction::UndoLastCommit,
    }
    .is_active());
}

// ── filtered_entries ──

fn make_entries(paths: &[&str]) -> Vec<FileEntry> {
    paths
        .iter()
        .map(|p| FileEntry {
            path: p.to_string(),
            status: FileStatus::Unstaged(ChangeKind::Modified),
            insertions: 0,
            deletions: 0,
        })
        .collect()
}

fn new_app(entries: Vec<FileEntry>) -> App {
    App::new(
        "/tmp/repo".to_string(),
        entries,
        "main".to_string(),
        (0, 0),
        Theme::default_theme(),
    )
}

fn filtered_paths(app: &App) -> Vec<String> {
    app.filtered_entries()
        .iter()
        .map(|(_, e)| e.path.clone())
        .collect()
}

#[test]
fn test_filtered_entries_no_filter() {
    let mut app = new_app(Vec::new());
    app.file_entries = make_entries(&["a.rs", "b.rs"]);
    app.file_filter = None;
    assert_eq!(filtered_paths(&app).len(), 2);
}

#[test]
fn test_filtered_entries_single_word() {
    let mut app = new_app(Vec::new());
    app.file_entries = make_entries(&["src/main.rs", "src/lib.rs", "Cargo.toml"]);
    app.file_filter = Some("main".into());
    assert_eq!(filtered_paths(&app), vec!["src/main.rs"]);
}

#[test]
fn test_filtered_entries_multi_word() {
    let mut app = new_app(Vec::new());
    app.file_entries = make_entries(&["src/main.rs", "src/lib.rs", "Cargo.toml"]);
    app.file_filter = Some("src rs".into());
    let result = filtered_paths(&app);
    assert!(result.contains(&"src/main.rs".to_string()));
    assert!(result.contains(&"src/lib.rs".to_string()));
    assert!(!result.contains(&"Cargo.toml".to_string()));
}

#[test]
fn test_filtered_entries_case_insensitive() {
    let mut app = new_app(Vec::new());
    app.file_entries = make_entries(&["src/main.rs", "README.md"]);
    app.file_filter = Some("MAIN".into());
    assert_eq!(filtered_paths(&app), vec!["src/main.rs"]);
}

#[test]
fn test_filtered_entries_empty_filter() {
    let mut app = new_app(Vec::new());
    app.file_entries = make_entries(&["a.rs", "b.rs"]);
    app.file_filter = Some(String::new());
    assert_eq!(filtered_paths(&app).len(), 2);
}

#[test]
fn filtered_entries_keep_original_indices() {
    let mut app = new_app(make_entries(&["x/a.rs", "b.toml", "x/c.rs"]));
    app.file_filter = Some("X".into());
    let idx: Vec<usize> = app.filtered_entries().iter().map(|(i, _)| *i).collect();
    assert_eq!(idx, vec![0, 2]);
}

// ── keep_cursor_visible ──

fn make_diff_state(viewport_height: usize, scroll: usize, cursor_line: usize) -> DiffState {
    DiffState {
        file_path: String::new(),
        left_lines: Vec::new(),
        right_lines: Vec::new(),
        hunks: Vec::new(),
        current_hunk: 0,
        scroll,
        max_scroll: 1000,
        old_content: String::new(),
        new_content: String::new(),
        view_mode: DiffViewMode::LineNav,
        cursor_line,
        selected_lines: BTreeSet::new(),
        hunk_changed_rows: Vec::new(),
        saved_line_selection: None,
        viewport_height,
        is_staged: false,
        h_scroll: 0,
    }
}

#[test]
fn test_keep_cursor_visible_scrolls_up() {
    let mut ds = make_diff_state(30, 20, 5);
    App::keep_cursor_visible(&mut ds);
    // Cursor at 5 is above scroll(20) + margin(10), scroll should decrease
    assert!(ds.scroll <= 5);
}

#[test]
fn test_keep_cursor_visible_scrolls_down() {
    let mut ds = make_diff_state(30, 0, 29);
    App::keep_cursor_visible(&mut ds);
    // Cursor at 29 is near/past bottom of viewport(0..30), scroll should increase
    assert!(ds.scroll > 0);
}

#[test]
fn test_keep_cursor_visible_no_change() {
    let mut ds = make_diff_state(30, 0, 15);
    let original_scroll = ds.scroll;
    App::keep_cursor_visible(&mut ds);
    assert_eq!(ds.scroll, original_scroll);
}

#[test]
fn keep_cursor_visible_exact_scrolls() {
    let mut ds = make_diff_state(30, 20, 5);
    App::keep_cursor_visible(&mut ds);
    assert_eq!(ds.scroll, 0);
    let mut ds = make_diff_state(30, 0, 29);
    App::keep_cursor_visible(&mut ds);
    assert_eq!(ds.scroll, 10);
    let mut ds = make_diff_state(30, 100, 105);
    App::keep_cursor_visible(&mut ds);
    assert_eq!(ds.scroll, 95);
}

// ── update_current_hunk_from_scroll / cursor ──

fn make_diff_state_with_hunks() -> DiffState {
    let mut ds = make_diff_state(30, 0, 0);
    ds.hunks = vec![
        Hunk {
            display_start: 5,
            display_end: 10,
        },
        Hunk {
            display_start: 20,
            display_end: 25,
        },
        Hunk {
            display_start: 40,
            display_end: 50,
        },
    ];
    ds
}

#[test]
fn test_update_current_hunk_from_scroll() {
    let mut ds = make_diff_state_with_hunks();
    // With viewport=30, offset=10, scroll=6: focus_line = 6 (since 6 < 10)
    // focus_line 6 is inside hunk 0 (5..10)
    ds.scroll = 6;
    App::update_current_hunk_from_scroll(&mut ds);
    assert_eq!(ds.current_hunk, 0);

    // scroll=15, offset=10: focus_line = 15+10 = 25, past hunk 1 (20..25), so hunk 2
    ds.scroll = 15;
    App::update_current_hunk_from_scroll(&mut ds);
    assert_eq!(ds.current_hunk, 2);
}

#[test]
fn test_update_current_hunk_from_cursor() {
    let mut ds = make_diff_state_with_hunks();
    ds.cursor_line = 42;
    App::update_current_hunk_from_cursor(&mut ds);
    assert_eq!(ds.current_hunk, 2);
}

#[test]
fn test_update_current_hunk_past_all() {
    let mut ds = make_diff_state_with_hunks();
    ds.scroll = 100;
    App::update_current_hunk_from_scroll(&mut ds);
    assert_eq!(ds.current_hunk, 2); // last hunk
}

#[test]
fn update_current_hunk_from_cursor_outside_hunks_keeps_current() {
    let mut ds = make_diff_state_with_hunks();
    ds.current_hunk = 1;
    ds.cursor_line = 12;
    App::update_current_hunk_from_cursor(&mut ds);
    assert_eq!(ds.current_hunk, 1);
}

// ── App::update() round trips ──
// The repository work that a message asks for comes back as a `Command`;
// these tests play the part of the caller that performs it.

#[test]
fn test_update_quit_closes_overlay() {
    let mut app = new_app(Vec::new());
    app.overlay = Overlay::Confirm {
        message: "test".into(),
        action: PendingAction::UndoLastCommit,
    };
    assert!(app.accepts(Message::Quit));
    let c = app.update(Message::Quit);
    assert!(matches!(c, Command::Nothing));
    assert!(!app.overlay.is_active());
    assert!(!app.should_quit);
}

#[test]
fn test_update_quit_exits() {
    let mut app = new_app(Vec::new());
    app.update(Message::Quit);
    assert!(app.should_quit);
}

#[test]
fn test_update_stage_file() {
    let mut app = new_app(vec![FileEntry {
        path: "new.txt".to_string(),
        status: FileStatus::Untracked,
        insertions: 0,
        deletions: 0,
    }]);
    // Select the untracked file
    app.header_selected = false;
    let idx = app
        .file_entries
        .iter()
        .position(|e| e.path == "new.txt")
        .unwrap();
    app.selected_index = idx;
    assert!(app.accepts(Message::StageFile));
    match app.update(Message::StageFile) {
        Command::StageFile { path } => {
            assert_eq!(path, "new.txt");
            let next = app.after_stage_file(path);
            assert!(matches!(next, Command::Refresh { reload_diff: true }));
        }
        _ => panic!("staging a file asks the caller to stage it"),
    }
    assert!(app.status_message.as_ref().unwrap().contains("Staged"));
}

#[test]
fn test_update_unstage_file() {
    let mut app = new_app(vec![FileEntry {
        path: "new.txt".to_string(),
        status: FileStatus::Staged(ChangeKind::Added),
        insertions: 1,
        deletions: 0,
    }]);
    app.header_selected = false;
    let idx = app
        .file_entries
        .iter()
        .position(|e| e.path == "new.txt")
        .unwrap();
    app.selected_index = idx;
    match app.update(Message::UnstageFile) {
        Command::UnstageFile { path } => {
            app.after_unstage_file(path);
        }
        _ => panic!("unstaging a file asks the caller to unstage it"),
    }
    assert!(app.status_message.as_ref().unwrap().contains("Unstaged"));
}

#[test]
fn test_update_open_commit_no_staged() {
    let mut app = new_app(Vec::new());
    let c = app.update(Message::OpenCommit);
    assert!(matches!(c, Command::CheckStaged));
    app.after_check_staged(false);
    assert_eq!(
        app.status_message.as_deref(),
        Some("Nothing staged to commit")
    );
}

#[test]
fn open_commit_with_staged_changes_prefills_saved_message() {
    let mut app = new_app(Vec::new());
    app.saved_commit_msg = Some("first\nsecond".to_string());
    app.after_check_staged(true);
    match &app.overlay {
        Overlay::CommitInput { input, amend } => {
            assert!(!amend);
            assert_eq!(input.to_string(), "first\nsecond");
            assert_eq!(input.cursor_row, 1);
        }
        _ => panic!("the commit editor opens"),
    }
    assert!(app.saved_commit_msg.is_none());
}

#[test]
fn test_update_switch_panel() {
    let mut app = new_app(make_entries(&["hello.txt"]));
    app.header_selected = false;
    assert_eq!(app.active_panel, Panel::FileList);
    app.update(Message::SwitchPanel);
    assert_eq!(app.active_panel, Panel::DiffView);
    app.update(Message::SwitchPanel);
    assert_eq!(app.active_panel, Panel::FileList);
}

#[test]
fn switch_panel_with_header_selected_stays() {
    let mut app = new_app(Vec::new());
    assert!(app.header_selected);
    app.update(Message::SwitchPanel);
    assert_eq!(app.active_panel, Panel::FileList);
}

#[test]
fn test_update_start_and_clear_filter() {
    let mut app = new_app(Vec::new());
    assert!(app.file_filter.is_none());
    app.update(Message::StartFilter);
    assert_eq!(app.file_filter, Some(String::new()));
    app.update(Message::ClearFilter);
    assert!(app.file_filter.is_none());
}

#[test]
fn stage_conflict_file_is_refused() {
    let mut app = new_app(vec![FileEntry {
        path: "c.txt".to_string(),
        status: FileStatus::Conflict,
        insertions: 0,
        deletions: 0,
    }]);
    let c = app.update(Message::StageFile);
    assert!(matches!(c, Command::Nothing));
    assert!(app.status_message.as_ref().unwrap().starts_with("Cannot stage conflict file"));
}

#[test]
fn new_app_with_files_selects_first_file() {
    let app = new_app(make_entries(&["a.rs"]));
    assert!(!app.header_selected);
    assert_eq!(app.selected_index, 0);
    assert!(app.check_wf());
}

// ── running the editor and the rebase ──

#[test]
fn editor_choice_prefers_visual_then_editor() {
    assert_eq!(editor_choice(Some("code".into()), Some("vim".into())), "code");
    assert_eq!(editor_choice(None, Some("vim".into())), "vim");
    assert_eq!(editor_choice(None, None), "vi");
}

#[test]
fn editor_and_rebase_commands() {
    assert_eq!(editor_command("vim", 12, "/r/a b.rs"), "vim +12 '/r/a b.rs'");
    assert_eq!(rebase_editor_script("/r/.git/todo"), "#!/bin/sh\ncp /r/.git/todo \"$1\"");
}

#[test]
fn editor_outcome_messages() {
    let mut app = new_app(Vec::new());
    let c = app.after_editor("a.rs".to_string(), EditorOutcome::ExitCode { code: -3 });
    assert!(matches!(c, Command::Refresh { reload_diff: false }));
    assert_eq!(app.status_message.as_deref(), Some("Editor exited with code -3"));
    app.after_editor("a.rs".to_string(), EditorOutcome::Failed { editor: "ed".into(), error: "gone".into() });
    assert_eq!(app.status_message.as_deref(), Some("Failed to launch 'ed': gone"));
}

#[test]
fn auto_refresh_every_two_seconds_without_popup() {
    let mut app = new_app(Vec::new());
    assert!(!app.auto_refresh_due(1999));
    assert!(app.auto_refresh_due(2000));
    app.overlay = Overlay::Confirm { message: "m".into(), action: PendingAction::UndoLastCommit };
    assert!(!app.auto_refresh_due(5000));
}

#[test]
fn commit_editor_control_keys() {
    assert_eq!(
        poll_event_overlay_only(KeyEvent::new(KeyCode::Char('s'), KeyModifiers::control())),
        Some(Message::ConfirmCommit)
    );
    assert_eq!(poll_event_overlay_only(KeyEvent::new(KeyCode::Char('s'), KeyModifiers::none())), None);
}

#[test]
fn centered_rect_takes_the_middle() {
    assert_eq!(centered_rect(50, 20, (0, 0, 100, 100)), (25, 40, 50, 20));
    assert_eq!(centered_rect(100, 100, (3, 4, 10, 6)), (3, 4, 10, 6));
}
