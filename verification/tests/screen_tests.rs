use std::collections::BTreeSet;

use stage_rs::app::{App, DiffState, DiffViewMode, Message, Panel, WhichKeyEntry};
use stage_rs::conflict::{parse_conflicts, ConflictResolution, ConflictState};
use stage_rs::conflict_view::conflict_view;
use stage_rs::diff::{compute_diff, DiffLineKind};
use stage_rs::diff_view::{content_runs, diff_rows, left_placeholder, overview_bar, right_title};
use stage_rs::file_panel::file_list_view;
use stage_rs::keymap::{dirty_checkout_hint_line, hint_line, InputContext};
use stage_rs::log::BlameLine;
use stage_rs::popup_view::{commit_detail_title, stash_title, which_key_lines};
use stage_rs::status::{ChangeKind, FileEntry, FileStatus};
use stage_rs::status_bar::{footer_line, header_line};
use stage_rs::styled::Styled;
use stage_rs::syntax::Highlighter;
use stage_rs::theme::{Color, Theme};
use stage_rs::view::CellStyle;

fn texts(l: &[Styled]) -> Vec<String> {
    l.iter().map(|s| s.text.clone()).collect()
}

fn conflict_state() -> ConflictState {
    let parsed = parse_conflicts("a\n<<<<<<< HEAD\nx\n=======\ny\n>>>>>>> br\nb\n").unwrap();
    ConflictState::from_parsed("f.txt".to_string(), parsed)
}

#[test]
fn conflict_view_of_an_unresolved_section() {
    let theme = Theme::default_theme();
    let cs = conflict_state();
    let v = conflict_view(&cs, true, 9, &theme);
    assert_eq!(texts(&v.status[..4]), vec![" f.txt ", " 1/1 ", " UNRESOLVED ", "  "]);
    assert!(v.status[2].bold);
    assert_eq!(v.status[2].bg, Some(theme.red));
    assert_eq!(v.status[2].fg, Some(theme.black));
    assert_eq!(v.status[4].fg, Some(theme.yellow));
    assert_eq!(v.left_title, " HEAD ");
    assert_eq!(v.right_title, " br ");
    assert_eq!(v.left_style.fg, theme.conflict_dim_fg);
    assert_eq!(v.left_style.title_fg, theme.cyan);
    assert_eq!(v.right_style.title_fg, theme.magenta);
    let left: Vec<Vec<String>> = v.left_rows.iter().map(|r| texts(r)).collect();
    assert_eq!(left, vec![vec!["  a".to_string()], vec!["~ ".to_string(), "x".to_string()], vec!["  b".to_string()]]);
    let right: Vec<Vec<String>> = v.right_rows.iter().map(|r| texts(r)).collect();
    assert_eq!(right[1], vec!["~ ".to_string(), "y".to_string()]);
    assert_eq!(v.scroll, 0);
}

#[test]
fn conflict_view_of_a_picked_section_without_focus() {
    let theme = Theme::dracula();
    let mut cs = conflict_state();
    cs.sections[0].resolution = ConflictResolution::Theirs;
    let v = conflict_view(&cs, false, 0, &theme);
    assert_eq!(v.status[2].text, " br ");
    assert_eq!(v.status[2].bg, Some(theme.magenta));
    assert_eq!(v.right_style.fg, theme.conflict_theirs_accent);
    assert_eq!(v.right_style.bg, theme.conflict_theirs_bg);
    assert_eq!(v.left_style.fg, theme.fg_dim);
    assert_eq!(v.left_style.title_fg, theme.fg_dim);
    assert_eq!(v.right_rows[1][1].bg, Some(theme.conflict_theirs_bg));
    // one context line above the conflict, a panel of no height: scroll by one
    assert_eq!(v.scroll, 1);
}

fn diff_state(old: &str, new: &str) -> DiffState {
    let (left, right, hunks) = compute_diff(old, new);
    DiffState {
        file_path: "a.txt".to_string(),
        left_lines: left,
        right_lines: right,
        hunks,
        current_hunk: 0,
        scroll: 0,
        max_scroll: 0,
        old_content: old.to_string(),
        new_content: new.to_string(),
        view_mode: DiffViewMode::HunkNav,
        cursor_line: 0,
        selected_lines: BTreeSet::new(),
        hunk_changed_rows: Vec::new(),
        saved_line_selection: None,
        viewport_height: 10,
        is_staged: false,
        h_scroll: 0,
    }
}

#[test]
fn diff_rows_number_and_style_rows() {
    let theme = Theme::default_theme();
    let ds = diff_state("a\nold\nb\n", "a\nnew\nb\n");
    let rows = diff_rows(&ds, true, None, true, 3, &theme);
    assert_eq!(rows.len(), 3);
    assert_eq!(texts(&rows[0].prefix), vec!["   1 "]);
    assert_eq!(rows[1].text, "old");
    assert_eq!(rows[1].kind, DiffLineKind::Removed);
    assert_eq!(rows[1].style, CellStyle { fg: theme.red, bg: theme.diff_removed_bg_bright });
    assert_eq!(rows[0].style, CellStyle { fg: theme.fg, bg: theme.bg });
    let right = diff_rows(&ds, false, None, false, 10, &theme);
    assert_eq!(right.len(), 4);
    assert_eq!(right[2].text, "new");
    assert_eq!(right[2].style, CellStyle { fg: theme.green, bg: theme.diff_added_bg });
}

#[test]
fn diff_rows_with_blame_and_line_mode() {
    let theme = Theme::default_theme();
    let mut ds = diff_state("a\nold\nb\n", "a\nnew\nb\n");
    ds.view_mode = DiffViewMode::LineNav;
    ds.cursor_line = 1;
    ds.selected_lines.insert(2);
    ds.h_scroll = 1;
    let blame = vec![
        BlameLine { hash: "1111111".into(), author: "alice".into() },
        BlameLine { hash: "2222222".into(), author: "a-very-long-name".into() },
    ];
    let rows = diff_rows(&ds, true, Some(&blame), true, 10, &theme);
    assert_eq!(texts(&rows[0].prefix), vec!["1111111 alice    ", "   1 "]);
    assert_eq!(texts(&rows[1].prefix), vec!["2222222 a-very-l ", "> ", "   2 "]);
    assert_eq!(rows[1].text, "ld");
    // the gap row has no old-file line and so no blame
    assert_eq!(texts(&rows[2].prefix), vec!["                  ", " +", "   3 "]);
    // the third old-file line has no blame entry
    assert_eq!(rows[3].prefix[0].text, " ".repeat(18));
}

#[test]
fn right_titles() {
    let ds = diff_state("a\n", "b\n");
    assert_eq!(right_title(&Some(ds)), " Working Tree: a.txt [hunk 1/1] ");
    let mut ds = diff_state("a\n", "b\n");
    ds.view_mode = DiffViewMode::LineNav;
    ds.is_staged = true;
    ds.hunk_changed_rows = vec![0, 1];
    ds.selected_lines.insert(0);
    assert_eq!(right_title(&Some(ds)), " Index: a.txt [1/2 to unstage | hunk 1/1] ");
    assert_eq!(right_title(&None), " Working Tree ");
    assert_eq!(left_placeholder(false), "Select a file to view diff");
    assert_eq!(left_placeholder(true), "");
}

#[test]
fn overview_bar_marks_changes_and_viewport() {
    let theme = Theme::default_theme();
    let (_, right, _) = compute_diff("a\nb\nc\nd\n", "a\nB\nc\nd\n");
    // rows: a, b(removed)/B(added) as two rows, c, d
    let cells = overview_bar(&right, 0, 2, 5, &theme);
    assert_eq!(cells.len(), 5);
    assert_eq!(cells[0].glyph, '\u{2502}');
    assert_eq!(cells[0].bg, theme.diff_viewport_bg);
    assert_eq!(cells[1].fg, theme.red);
    assert_eq!(cells[1].glyph, '\u{2503}');
    assert_eq!(cells[2].fg, theme.green);
    assert_eq!(cells[2].bg, theme.bg);
    assert_eq!(cells[4].glyph, ' ');
    assert!(overview_bar(&right, 0, 2, 0, &theme).is_empty());
}

#[test]
fn content_runs_fall_back_to_the_row_style() {
    let hl = Highlighter::new("base16-ocean.dark");
    let style = CellStyle { fg: Color::Red, bg: Color::Blue };
    let r = content_runs(&hl, "", DiffLineKind::Added, style, Some("rs"));
    assert_eq!(r.len(), 1);
    assert_eq!((r[0].fg, r[0].bg), (Some(Color::Red), Some(Color::Blue)));
    let r = content_runs(&hl, "let x = 1;", DiffLineKind::Spacer, style, Some("rs"));
    assert_eq!(texts(&r), vec!["let x = 1;"]);
    let r = content_runs(&hl, "let x = 1;", DiffLineKind::Added, style, None);
    assert_eq!(texts(&r), vec!["let x = 1;"]);
}

#[test]
fn highlighter_splits_a_line_into_runs() {
    let hl = Highlighter::new("no-such-theme");
    let runs = hl.highlight_line("fn main() { let x = 1; }", "rs", Color::Black).unwrap();
    assert!(runs.len() > 1);
    assert_eq!(runs.iter().map(|r| r.text.as_str()).collect::<String>(), "fn main() { let x = 1; }");
    assert!(runs.iter().all(|r| r.bg == Some(Color::Black) && r.fg.is_some()));
    assert!(hl.highlight_line("x", "no-such-extension", Color::Black).is_none());
    let r = content_runs(&hl, "fn f() {}", DiffLineKind::Equal, CellStyle { fg: Color::Red, bg: Color::Blue }, Some("rs"));
    assert_eq!(r.iter().map(|s| s.text.as_str()).collect::<String>(), "fn f() {}");
    assert!(r.iter().all(|s| s.bg == Some(Color::Blue)));
}

fn entry(path: &str, status: FileStatus, insertions: usize, deletions: usize) -> FileEntry {
    FileEntry { path: path.to_string(), status, insertions, deletions }
}

#[test]
fn file_list_sections_and_items() {
    let mut app = App::new(
        "/r".to_string(),
        vec![
            entry("src/main.rs", FileStatus::Unstaged(ChangeKind::Modified), 3, 1),
            entry("new.txt", FileStatus::Untracked, 0, 0),
        ],
        "main".to_string(),
        (0, 0),
        Theme::default_theme(),
    );
    app.selected_index = 1;
    let v = file_list_view(&app);
    assert_eq!(v.title, " Source Control ");
    assert_eq!(v.border, app.theme.cyan);
    assert_eq!(v.items.len(), 5);
    assert_eq!(texts(&v.items[0][0]), vec![" ", "Repository"]);
    assert_eq!(texts(&v.items[1][0]), vec![" Changes (1)"]);
    assert_eq!(texts(&v.items[2][0]), vec!["  ", "M ", "main.rs"]);
    assert_eq!(texts(&v.items[2][1]), vec!["    src/", " ", "+3", " ", "-1"]);
    assert_eq!(texts(&v.items[3][0]), vec![" Untracked (1)"]);
    assert_eq!(v.items[4].len(), 1);
    assert_eq!(v.selected, Some(4));
    assert!(v.filter_line.is_none());
}

#[test]
fn file_list_while_filtering() {
    let mut app = App::new(
        "/r".to_string(),
        vec![
            entry("a.rs", FileStatus::Unstaged(ChangeKind::Modified), 0, 2),
            entry("b.txt", FileStatus::Unstaged(ChangeKind::Added), 0, 0),
            entry("c.rs", FileStatus::Staged(ChangeKind::Added), 0, 0),
        ],
        "main".to_string(),
        (0, 0),
        Theme::default_theme(),
    );
    app.file_filter = Some("rs".to_string());
    app.header_selected = true;
    app.active_panel = Panel::DiffView;
    let v = file_list_view(&app);
    assert_eq!(v.title, " Source Control (filtering) ");
    assert_eq!(v.border, app.theme.fg_dim);
    let heads: Vec<String> = v.items.iter().map(|it| it[0][0].text.clone()).collect();
    assert_eq!(heads, vec![" ", " Changes (1)", "  ", " Staged Changes (1)", "  "]);
    assert_eq!(texts(&v.items[2][1]), vec!["     ", "-2"]);
    assert_eq!(v.selected, Some(0));
    assert!(!v.items[0][0][1].bold);
    assert_eq!(texts(&v.filter_line.unwrap()), vec!["/", "rs", "_"]);
}

#[test]
fn header_and_footer_lines() {
    let mut app = App::new("/r".to_string(), Vec::new(), "dev".to_string(), (0, 0), Theme::default_theme());
    assert_eq!(texts(&header_line(&app)), vec!["  dev ", " 0 changes ", "  [s]tage [u]nstage [d]iscard [r]efresh [q]uit "]);
    app.status_message = Some("done".to_string());
    app.active_panel = Panel::DiffView;
    assert_eq!(texts(&footer_line(&app)), vec![" DiffView ", " | done", " | j/k:navigate Enter:select Tab:switch "]);
}

#[test]
fn which_key_grid_fills_columns_top_down() {
    let theme = Theme::default_theme();
    let es: Vec<WhichKeyEntry> = vec![
        WhichKeyEntry { key: 'a', label: "one", message: Message::Quit },
        WhichKeyEntry { key: 'b', label: "two", message: Message::Quit },
        WhichKeyEntry { key: 'c', label: "three", message: Message::Quit },
        WhichKeyEntry { key: 'd', label: "four", message: Message::Quit },
    ];
    let ls = which_key_lines(&es, 10, &theme);
    assert_eq!(ls.len(), 2);
    assert_eq!(texts(&ls[0]), vec![" a", " one", "     ", " c", " three", "   "]);
    assert_eq!(texts(&ls[1]), vec![" b", " two", "     ", " d", " four", "    "]);
    assert!(which_key_lines(&Vec::new(), 10, &theme).is_empty());
}

#[test]
fn popup_titles() {
    assert_eq!(stash_title(2), " Stashes (2) [p]op [a]pply [d]rop [q]close ");
    assert_eq!(
        commit_detail_title(0, 3, &"abc1234".to_string(), &vec!["main".to_string(), "v1".to_string()], &"msg".to_string()),
        " [1/3] abc1234 (main, v1) - msg "
    );
    assert_eq!(commit_detail_title(1, 2, &"h".to_string(), &Vec::new(), &"m".to_string()), " [2/2] h - m ");
}

#[test]
fn hint_lines_alternate_keys_and_labels() {
    let theme = Theme::default_theme();
    let l = hint_line(InputContext::Confirm, &theme);
    assert!(l.len() >= 2);
    assert_eq!(l[0].fg, Some(theme.yellow));
    assert!(l[1].text.starts_with(':'));
    assert_eq!(l[1].fg, Some(theme.fg_dim));
    if l.len() > 2 {
        assert_eq!(l[2].text, "  ");
    }
    let d = dirty_checkout_hint_line(true, &theme);
    assert_eq!(texts(&d[0]), vec![" Stash unavailable (unmerged files)"]);
    let d = dirty_checkout_hint_line(false, &theme);
    assert!(d[0][0].text.starts_with(" ["));
}
