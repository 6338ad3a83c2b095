use stage_rs::app::{App, DiffViewMode, Message, Overlay, Panel, RebaseAction, RebaseEntry};
use stage_rs::input::InputMode;
use stage_rs::status::{ChangeKind, FileEntry, FileStatus};
use stage_rs::text_input::TextInput;
use stage_rs::theme::Theme;

fn app_with_diff(old: &str, new: &str) -> App {
    let mut app = App::new(
        "/r".to_string(),
        vec![FileEntry {
            path: "a.txt".to_string(),
            status: FileStatus::Unstaged(ChangeKind::Modified),
            insertions: 1,
            deletions: 1,
        }],
        "main".to_string(),
        (0, 0),
        Theme::default_theme(),
    );
    app.apply_diff_content("a.txt".to_string(), false, Some((old.to_string(), new.to_string())));
    app.active_panel = Panel::DiffView;
    app
}

fn send(app: &mut App, msg: Message) {
    assert!(app.accepts(msg), "{msg:?} not accepted");
    app.update(msg);
    assert!(app.check_wf());
}

fn selection(app: &App) -> Vec<usize> {
    app.diff_state.as_ref().unwrap().selected_lines.iter().copied().collect()
}

#[test]
fn toggling_a_line_twice_restores_the_selection() {
    let mut app = app_with_diff("a\nold\nb\n", "a\nnew\nb\n");
    send(&mut app, Message::EnterLineMode);
    let before = selection(&app);
    send(&mut app, Message::ToggleLine);
    assert_ne!(selection(&app), before);
    send(&mut app, Message::ToggleLine);
    assert_eq!(selection(&app), before);
}

#[test]
fn leaving_and_entering_line_mode_restores_selection_and_cursor() {
    let mut app = app_with_diff("a\nold\nb\n", "a\nnew\nb\n");
    send(&mut app, Message::EnterLineMode);
    send(&mut app, Message::MoveDown);
    send(&mut app, Message::ToggleLine);
    let sel = selection(&app);
    let cursor = app.diff_state.as_ref().unwrap().cursor_line;
    send(&mut app, Message::ExitLineMode);
    assert_eq!(app.diff_state.as_ref().unwrap().view_mode, DiffViewMode::HunkNav);
    assert!(selection(&app).is_empty());
    send(&mut app, Message::EnterLineMode);
    assert_eq!(selection(&app), sel);
    assert_eq!(app.diff_state.as_ref().unwrap().cursor_line, cursor);
}

#[test]
fn moving_a_rebase_entry_up_then_down_restores_the_list() {
    let mut app = App::new("/r".to_string(), Vec::new(), "main".to_string(), (0, 0), Theme::default_theme());
    let entry = |h: &str| RebaseEntry { hash: h.to_string(), message: format!("msg {h}"), action: RebaseAction::Pick };
    app.overlay = Overlay::Rebase { entries: vec![entry("a"), entry("b"), entry("c")], selected: 1, base_hash: "z".into() };
    send(&mut app, Message::RebaseMoveUp);
    match &app.overlay {
        Overlay::Rebase { entries, selected, .. } => {
            assert_eq!(entries.iter().map(|e| e.hash.as_str()).collect::<Vec<_>>(), vec!["b", "a", "c"]);
            assert_eq!(*selected, 0);
        }
        _ => panic!("the rebase list stays open"),
    }
    send(&mut app, Message::RebaseMoveDown);
    match &app.overlay {
        Overlay::Rebase { entries, selected, .. } => {
            assert_eq!(entries.iter().map(|e| e.hash.as_str()).collect::<Vec<_>>(), vec!["a", "b", "c"]);
            assert_eq!(*selected, 1);
        }
        _ => panic!("the rebase list stays open"),
    }
}

#[test]
fn every_message_keeps_the_state_well_formed() {
    let mut app = app_with_diff("a\nb\nc\nd\ne\nf\n", "a\nB\nc\nd\nE\nf\n");
    let msgs = [
        Message::MoveDown,
        Message::MoveDown,
        Message::NextHunk,
        Message::NextHunk,
        Message::PrevHunk,
        Message::EnterLineMode,
        Message::MoveDown,
        Message::MoveDown,
        Message::MoveDown,
        Message::ToggleLine,
        Message::SelectAllLines,
        Message::MoveUp,
        Message::ExitLineMode,
        Message::ScrollRight,
        Message::ScrollLeft,
        Message::SwitchPanel,
        Message::MoveUp,
        Message::MoveUp,
        Message::MoveDown,
        Message::StartFilter,
        Message::ClearFilter,
        Message::OpenWhichKey,
        Message::CycleTheme,
        Message::Quit,
    ];
    for m in msgs {
        send(&mut app, m);
    }
    assert!(app.should_quit);
}

#[test]
fn text_round_trip() {
    for s in ["", "x", "a\nb", "a\n\n", "\n", "é\nü\n"] {
        assert_eq!(TextInput::new(s).to_string(), s);
    }
}

#[test]
fn input_mode_precedence() {
    let mut app = App::new("/r".to_string(), Vec::new(), "main".to_string(), (0, 0), Theme::default_theme());
    assert_eq!(app.input_mode(), InputMode::Normal);
    app.which_key = Some(Vec::new());
    assert_eq!(app.input_mode(), InputMode::WhichKey);
    app.file_filter = Some(String::new());
    assert_eq!(app.input_mode(), InputMode::Filter);
    app.overlay = Overlay::BranchList { entries: Vec::new(), selected: 0, creating: Some(String::new()) };
    assert_eq!(app.input_mode(), InputMode::BranchName);
    app.overlay = Overlay::CommitInput { input: TextInput::new(""), amend: false };
    assert_eq!(app.input_mode(), InputMode::CommitText);
}

#[test]
fn file_list_up_then_down_returns() {
    let entry = |p: &str| FileEntry {
        path: p.to_string(),
        status: FileStatus::Unstaged(ChangeKind::Modified),
        insertions: 0,
        deletions: 0,
    };
    let mut app = App::new(
        "/r".to_string(),
        vec![entry("a"), entry("b"), entry("c")],
        "main".to_string(),
        (0, 0),
        Theme::default_theme(),
    );
    app.active_panel = Panel::FileList;
    let places = [(true, 0), (false, 0), (false, 1), (false, 2)];
    for (header, index) in places {
        app.header_selected = header;
        app.selected_index = index;
        app.handle_move_up();
        app.handle_move_down();
        assert_eq!((app.header_selected, app.selected_index), (header, index));
    }
}
