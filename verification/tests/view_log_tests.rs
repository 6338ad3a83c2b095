use stage_rs::app::{RebaseAction, RebaseEntry};
use stage_rs::app_popups::build_todo;
use stage_rs::diff::DiffLineKind;
use stage_rs::keymap::{display_key, display_keys, hint_items, merge_key_displays, InputContext, KeyBind, KeyCode};
use stage_rs::log::{
    build_commit_diff, current_branch_index, expand_blame, format_timestamp, refs_for, short_hash, BlameHunk,
    BranchEntry, CommitFile, LogEntry,
};
use stage_rs::theme::{Color, Theme};
use stage_rs::view::{format_file_size, pick_foreground, skip_chars, truncate_str};

// ── file sizes ──

fn float_size(bytes: u64) -> String {
    if bytes >= 1_073_741_824 {
        format!("{:.1} GB", bytes as f64 / 1_073_741_824.0)
    } else if bytes >= 1_048_576 {
        format!("{:.1} MB", bytes as f64 / 1_048_576.0)
    } else {
        format!("{:.1} KB", bytes as f64 / 1024.0)
    }
}

#[test]
fn format_file_size_exact_values() {
    assert_eq!(format_file_size(0), "0.0 KB");
    assert_eq!(format_file_size(1536), "1.5 KB");
    assert_eq!(format_file_size(1_048_576), "1.0 MB");
    assert_eq!(format_file_size(1_073_741_824), "1.0 GB");
    assert_eq!(format_file_size(5_347_737), "5.1 MB");
}

#[test]
fn format_file_size_agrees_with_float_formatting() {
    let mut samples: Vec<u64> = (0..5000).collect();
    samples.extend([51, 52, 102, 154, 1023, 1024, 1025, 1_048_575, 1_048_577, 2_621_440]);
    samples.extend([1_073_741_823, 1_073_741_825, 5_000_000_000, u64::MAX / 3, u64::MAX]);
    let mut b: u64 = 7;
    for _ in 0..2000 {
        samples.push(b);
        b = b.wrapping_mul(6364136223846793005).wrapping_add(1442695040888963407) >> (b % 40);
    }
    for k in 1..200u64 {
        samples.push(k * 1_048_576 / 20);
        samples.push(k * 1_048_576 / 20 + 1);
        samples.push(k * 1024 / 20 + 51);
    }
    for s in samples {
        assert_eq!(format_file_size(s), float_size(s), "size {}", s);
    }
}

// ── text helpers of the views ──

#[test]
fn truncate_str_cuts_and_pads() {
    assert_eq!(truncate_str("hello", 3), "hel");
    assert_eq!(truncate_str("hi", 5), "hi   ");
    assert_eq!(truncate_str("héllo", 2), "hé");
    assert_eq!(truncate_str("", 0), "");
}

#[test]
fn skip_chars_drops_a_prefix() {
    assert_eq!(skip_chars("héllo", 2), "llo");
    assert_eq!(skip_chars("abc", 0), "abc");
    assert_eq!(skip_chars("abc", 10), "");
}

#[test]
fn pick_foreground_keeps_tokens_readable() {
    assert_eq!(pick_foreground((10, 10, 10), Some((12, 12, 12)), Some((200, 200, 200))), Color::Rgb(200, 200, 200));
    assert_eq!(pick_foreground((10, 10, 10), Some((12, 12, 12)), None), Color::White);
    assert_eq!(pick_foreground((100, 10, 10), Some((12, 12, 12)), None), Color::Rgb(100, 10, 10));
    assert_eq!(pick_foreground((1, 2, 3), None, None), Color::Rgb(1, 2, 3));
}

// ── themes ──

#[test]
fn theme_names_cycle() {
    assert_eq!(Theme::next_theme_name("default"), "dracula");
    assert_eq!(Theme::next_theme_name("dracula"), "default");
    assert_eq!(Theme::next_theme_name("unknown"), "dracula");
    let t = Theme::from_name(Theme::next_theme_name(Theme::next_theme_name("default")));
    assert_eq!(t.name, "default");
}

#[test]
fn theme_from_env_value() {
    assert_eq!(Theme::from_env_value(Some("dracula")).name, "dracula");
    assert_eq!(Theme::from_env_value(Some("other")).name, "default");
    assert_eq!(Theme::from_env_value(None).name, "default");
    assert_eq!(Theme::dracula().syntax_theme, "Dracula");
}

// ── log ──

#[test]
fn format_timestamp_known_dates() {
    assert_eq!(format_timestamp(0), "1970-01-01 00:00");
    assert_eq!(format_timestamp(31_536_000), "1971-01-01 00:00");
    assert_eq!(format_timestamp(951_782_400), "2000-02-29 00:00");
    assert_eq!(format_timestamp(1_700_000_000), "2023-11-14 22:13");
}

#[test]
fn log_entry_from_commit_defaults() {
    let e = LogEntry::from_commit("0123456789abcdef", None, 0, None, vec!["main".to_string()]);
    assert_eq!(e.hash, "0123456");
    assert_eq!(e.author, "unknown");
    assert_eq!(e.date, "1970-01-01 00:00");
    assert_eq!(e.message, "");
    assert_eq!(e.refs, vec!["main"]);
    assert_eq!(short_hash("abcdefgh"), "abcdefg");
}

#[test]
fn refs_for_picks_matching_targets_in_order() {
    let pairs = vec![
        ("a1".to_string(), "main".to_string()),
        ("b2".to_string(), "dev".to_string()),
        ("a1".to_string(), "v1.0".to_string()),
    ];
    assert_eq!(refs_for(&pairs, &"a1".to_string()), vec!["main", "v1.0"]);
    assert!(refs_for(&pairs, &"zz".to_string()).is_empty());
}

#[test]
fn expand_blame_one_line_per_file_line() {
    let hunks = vec![
        BlameHunk { hash: "aaaaaaa".into(), author: "ann".into(), lines: 2 },
        BlameHunk { hash: "bbbbbbb".into(), author: "bob".into(), lines: 1 },
    ];
    let lines = expand_blame(&hunks);
    let authors: Vec<&str> = lines.iter().map(|l| l.author.as_str()).collect();
    assert_eq!(authors, vec!["ann", "ann", "bob"]);
}

#[test]
fn branch_helpers() {
    let entries = vec![
        BranchEntry { name: "dev".into(), is_current: false, is_remote: false },
        BranchEntry { name: "main".into(), is_current: true, is_remote: false },
        BranchEntry { name: "origin/feature/x".into(), is_current: false, is_remote: true },
    ];
    assert_eq!(current_branch_index(&entries), 1);
    assert_eq!(entries[2].checkout_target(), "feature/x");
    assert_eq!(entries[0].checkout_target(), "dev");
    assert_eq!(current_branch_index(&entries[..1].to_vec()), 0);
}

#[test]
fn commit_diff_lays_files_out_one_after_another() {
    let files = vec![
        CommitFile { path: "a.rs".into(), old_content: "x\n".into(), new_content: "y\n".into() },
        CommitFile { path: "b".into(), old_content: "".into(), new_content: "n\n".into() },
    ];
    let res = build_commit_diff(&files);
    let left: Vec<&str> = res.left_lines.iter().map(|l| l.content.as_str()).collect();
    assert_eq!(left, vec!["\u{2500}\u{2500} a.rs \u{2500}\u{2500}", "x", "", "", "\u{2500}\u{2500} b \u{2500}\u{2500}", ""]);
    assert_eq!(res.right_lines[2].content, "y");
    assert_eq!(res.right_lines[5].content, "n");
    assert_eq!(res.right_lines[5].kind, DiffLineKind::Added);
    let hunks: Vec<(usize, usize)> = res.hunks.iter().map(|h| (h.display_start, h.display_end)).collect();
    assert_eq!(hunks, vec![(1, 3), (5, 6)]);
    assert_eq!(
        res.file_extensions,
        vec![None, Some("rs".to_string()), Some("rs".to_string()), None, None, None]
    );
}

// ── rebase ──

#[test]
fn rebase_todo_lists_actions_hashes_and_messages() {
    let es = vec![
        RebaseEntry { hash: "aaa".into(), message: "first".into(), action: RebaseAction::Pick },
        RebaseEntry { hash: "bbb".into(), message: "second".into(), action: RebaseAction::Squash },
        RebaseEntry { hash: "ccc".into(), message: "third".into(), action: RebaseAction::Drop },
    ];
    assert_eq!(build_todo(&es), "pick aaa first\nsquash bbb second\ndrop ccc third");
    assert_eq!(build_todo(&Vec::new()), "");
}

// ── key display ──

#[test]
fn key_display_texts() {
    assert_eq!(display_key(&KeyBind::plain(KeyCode::Down)), "\u{2193}");
    assert_eq!(display_key(&KeyBind::plain(KeyCode::Char(' '))), "Space");
    assert_eq!(display_key(&KeyBind::ctrl('s')), "Ctrl+S");
    assert_eq!(display_key(&KeyBind::shift(KeyCode::Up)), "Shift+\u{2191}");
    assert_eq!(display_keys(&vec![KeyBind::plain(KeyCode::Enter), KeyBind::plain(KeyCode::Right)]), "Enter/\u{2192}");
}

#[test]
fn merge_key_displays_shares_prefix() {
    let shift = vec!["Shift+\u{2191}".to_string(), "Shift+\u{2193}".to_string()];
    assert_eq!(merge_key_displays(&shift), "Shift+\u{2191}/\u{2193}");
    let mixed = vec!["a".to_string(), "Ctrl+B".to_string()];
    assert_eq!(merge_key_displays(&mixed), "a/Ctrl+B");
    assert_eq!(merge_key_displays(&Vec::new()), "");
    assert_eq!(merge_key_displays(&vec!["x".to_string()]), "x");
}

#[test]
fn confirm_hints() {
    let items = hint_items(InputContext::Confirm);
    assert!(!items.is_empty());
    let mut labels: Vec<&str> = items.iter().map(|p| p.1).collect();
    let n = labels.len();
    labels.dedup();
    assert_eq!(labels.len(), n);
}

#[test]
fn format_timestamp_ignores_seconds() {
    assert_eq!(format_timestamp(1_700_000_040), format_timestamp(1_700_000_099));
    assert_eq!(format_timestamp(59), "1970-01-01 00:00");
    assert_eq!(format_timestamp(60), "1970-01-01 00:01");
}

#[test]
fn format_timestamp_is_gregorian_and_monotone() {
    assert_eq!(format_timestamp(951_868_799), "2000-02-29 23:59");
    assert_eq!(format_timestamp(951_868_800), "2000-03-01 00:00");
    assert_eq!(format_timestamp(4_107_542_399), "2100-02-28 23:59");
    assert_eq!(format_timestamp(4_107_542_400), "2100-03-01 00:00");
    assert_eq!(format_timestamp(253_402_300_799), "9999-12-31 23:59");
    let times = [0i64, 59, 86_399, 86_400, 951_868_799, 951_868_800, 1_700_000_000, 4_107_542_400];
    for w in times.windows(2) {
        assert!(format_timestamp(w[0]) <= format_timestamp(w[1]));
    }
}
