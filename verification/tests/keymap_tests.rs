use stage_rs::app::Message;
use stage_rs::keymap::{resolve, resolve_dirty_checkout, InputContext, KeyCode, KeyEvent, KeyModifiers};
fn key(code: KeyCode) -> KeyEvent {
    KeyEvent::new(code, KeyModifiers::none())
}

fn key_mod(code: KeyCode, modifiers: KeyModifiers) -> KeyEvent {
    KeyEvent::new(code, modifiers)
}

// ── Global keys ──

#[test]
fn test_ctrl_c_quits_in_all_contexts() {
    let ctrl_c = key_mod(KeyCode::Char('c'), KeyModifiers::control());
    assert!(matches!(
        resolve(InputContext::FileList, ctrl_c),
        Some(Message::Quit)
    ));
    assert!(matches!(
        resolve(InputContext::DiffHunkNav, ctrl_c),
        Some(Message::Quit)
    ));
    assert!(matches!(
        resolve(InputContext::DiffLineNav, ctrl_c),
        Some(Message::Quit)
    ));
}

#[test]
fn test_ctrl_c_does_not_quit_overlays() {
    let ctrl_c = key_mod(KeyCode::Char('c'), KeyModifiers::control());
    // Confirm overlay: Ctrl+C is not bound
    assert!(resolve(InputContext::Confirm, ctrl_c).is_none());
    // CommitInput: Ctrl+C → CloseOverlay
    assert!(matches!(
        resolve(InputContext::CommitInput, ctrl_c),
        Some(Message::CloseOverlay)
    ));
}

#[test]
fn test_q_quits_in_filelist_and_hunknav() {
    let q = key(KeyCode::Char('q'));
    assert!(matches!(
        resolve(InputContext::FileList, q),
        Some(Message::Quit)
    ));
    assert!(matches!(
        resolve(InputContext::DiffHunkNav, q),
        Some(Message::Quit)
    ));
}

#[test]
fn test_q_exits_line_mode() {
    let q = key(KeyCode::Char('q'));
    assert!(matches!(
        resolve(InputContext::DiffLineNav, q),
        Some(Message::ExitLineMode)
    ));
}

#[test]
fn test_q_closes_conflict() {
    let q = key(KeyCode::Char('q'));
    assert!(matches!(
        resolve(InputContext::ConflictNav, q),
        Some(Message::CloseConflict)
    ));
}

#[test]
fn test_filelist_arrow_down_moves_down() {
    assert!(matches!(
        resolve(InputContext::FileList, key(KeyCode::Down)),
        Some(Message::MoveDown)
    ));
}

#[test]
fn test_filelist_arrow_up_moves_up() {
    assert!(matches!(
        resolve(InputContext::FileList, key(KeyCode::Up)),
        Some(Message::MoveUp)
    ));
}

#[test]
fn test_tab_is_not_bound() {
    assert!(resolve(InputContext::FileList, key(KeyCode::Tab)).is_none());
    assert!(resolve(InputContext::DiffHunkNav, key(KeyCode::Tab)).is_none());
}

#[test]
fn test_space_opens_which_key() {
    assert!(matches!(
        resolve(InputContext::FileList, key(KeyCode::Char(' '))),
        Some(Message::OpenWhichKey)
    ));
    assert!(matches!(
        resolve(InputContext::DiffHunkNav, key(KeyCode::Char(' '))),
        Some(Message::OpenWhichKey)
    ));
}

// ── Diff arrow keys: plain=hunk, shift=scroll ──

#[test]
fn test_diff_hunk_arrow_down_next_hunk() {
    assert!(matches!(
        resolve(InputContext::DiffHunkNav, key(KeyCode::Down)),
        Some(Message::NextHunk)
    ));
}

#[test]
fn test_diff_hunk_arrow_up_prev_hunk() {
    assert!(matches!(
        resolve(InputContext::DiffHunkNav, key(KeyCode::Up)),
        Some(Message::PrevHunk)
    ));
}

#[test]
fn test_diff_hunk_shift_down_scrolls() {
    let shift_down = key_mod(KeyCode::Down, KeyModifiers::shift());
    assert!(matches!(
        resolve(InputContext::DiffHunkNav, shift_down),
        Some(Message::MoveDown)
    ));
}

#[test]
fn test_diff_hunk_shift_up_scrolls() {
    let shift_up = key_mod(KeyCode::Up, KeyModifiers::shift());
    assert!(matches!(
        resolve(InputContext::DiffHunkNav, shift_up),
        Some(Message::MoveUp)
    ));
}

#[test]
fn test_diff_line_arrow_down_moves_down() {
    assert!(matches!(
        resolve(InputContext::DiffLineNav, key(KeyCode::Down)),
        Some(Message::MoveDown)
    ));
}

#[test]
fn test_diff_line_arrow_up_moves_up() {
    assert!(matches!(
        resolve(InputContext::DiffLineNav, key(KeyCode::Up)),
        Some(Message::MoveUp)
    ));
}

#[test]
fn test_diff_line_shift_down_next_hunk() {
    let shift_down = key_mod(KeyCode::Down, KeyModifiers::shift());
    assert!(matches!(
        resolve(InputContext::DiffLineNav, shift_down),
        Some(Message::NextHunk)
    ));
}

#[test]
fn test_diff_line_shift_up_prev_hunk() {
    let shift_up = key_mod(KeyCode::Up, KeyModifiers::shift());
    assert!(matches!(
        resolve(InputContext::DiffLineNav, shift_up),
        Some(Message::PrevHunk)
    ));
}

// ── FileList context ──

#[test]
fn test_filelist_enter_switches_panel() {
    assert!(matches!(
        resolve(InputContext::FileList, key(KeyCode::Enter)),
        Some(Message::SwitchPanel)
    ));
}

#[test]
fn test_filelist_right_switches_panel() {
    assert!(matches!(
        resolve(InputContext::FileList, key(KeyCode::Right)),
        Some(Message::SwitchPanel)
    ));
}

#[test]
fn test_filelist_slash_starts_filter() {
    assert!(matches!(
        resolve(InputContext::FileList, key(KeyCode::Char('/'))),
        Some(Message::StartFilter)
    ));
}

#[test]
fn test_filelist_unknown_key_returns_none() {
    assert!(resolve(InputContext::FileList, key(KeyCode::Char('z'))).is_none());
}

// ── DiffHunkNav context ──

#[test]
fn test_hunknav_left_switches_panel() {
    assert!(matches!(
        resolve(InputContext::DiffHunkNav, key(KeyCode::Left)),
        Some(Message::SwitchPanel)
    ));
}

#[test]
fn test_hunknav_enter_enters_line_mode() {
    assert!(matches!(
        resolve(InputContext::DiffHunkNav, key(KeyCode::Enter)),
        Some(Message::EnterLineMode)
    ));
}

#[test]
fn test_hunknav_right_enters_line_mode() {
    assert!(matches!(
        resolve(InputContext::DiffHunkNav, key(KeyCode::Right)),
        Some(Message::EnterLineMode)
    ));
}

// ── DiffLineNav context ──

#[test]
fn test_linenav_enter_toggles_line() {
    assert!(matches!(
        resolve(InputContext::DiffLineNav, key(KeyCode::Enter)),
        Some(Message::ToggleLine)
    ));
}

#[test]
fn test_linenav_right_toggles_line() {
    assert!(matches!(
        resolve(InputContext::DiffLineNav, key(KeyCode::Right)),
        Some(Message::ToggleLine)
    ));
}

#[test]
fn test_linenav_esc_exits_line_mode() {
    assert!(matches!(
        resolve(InputContext::DiffLineNav, key(KeyCode::Esc)),
        Some(Message::ExitLineMode)
    ));
}

#[test]
fn test_linenav_left_exits_line_mode() {
    assert!(matches!(
        resolve(InputContext::DiffLineNav, key(KeyCode::Left)),
        Some(Message::ExitLineMode)
    ));
}

// ── ConflictNav context ──

#[test]
fn test_conflictnav_left_closes() {
    assert!(matches!(
        resolve(InputContext::ConflictNav, key(KeyCode::Left)),
        Some(Message::CloseConflict)
    ));
}

#[test]
fn test_conflictnav_esc_closes() {
    assert!(matches!(
        resolve(InputContext::ConflictNav, key(KeyCode::Esc)),
        Some(Message::CloseConflict)
    ));
}

#[test]
fn test_conflictnav_space_opens_which_key() {
    assert!(matches!(
        resolve(InputContext::ConflictNav, key(KeyCode::Char(' '))),
        Some(Message::OpenWhichKey)
    ));
}

// ── Overlay contexts ──

#[test]
fn test_confirm_yes() {
    assert!(matches!(
        resolve(InputContext::Confirm, key(KeyCode::Char('y'))),
        Some(Message::ConfirmAction)
    ));
    assert!(matches!(
        resolve(InputContext::Confirm, key(KeyCode::Enter)),
        Some(Message::ConfirmAction)
    ));
}

#[test]
fn test_confirm_no() {
    assert!(matches!(
        resolve(InputContext::Confirm, key(KeyCode::Char('n'))),
        Some(Message::CloseOverlay)
    ));
    assert!(matches!(
        resolve(InputContext::Confirm, key(KeyCode::Esc)),
        Some(Message::CloseOverlay)
    ));
}

#[test]
fn test_commit_input_ctrl_s_confirms() {
    let ctrl_s = key_mod(KeyCode::Char('s'), KeyModifiers::control());
    assert!(matches!(
        resolve(InputContext::CommitInput, ctrl_s),
        Some(Message::ConfirmCommit)
    ));
}

#[test]
fn test_commit_input_text_keys_return_none() {
    assert!(resolve(InputContext::CommitInput, key(KeyCode::Char('a'))).is_none());
    assert!(resolve(InputContext::CommitInput, key(KeyCode::Enter)).is_none());
}

#[test]
fn test_git_log_bindings() {
    assert!(matches!(
        resolve(InputContext::GitLog, key(KeyCode::Char('y'))),
        Some(Message::YankToClipboard)
    ));
    assert!(matches!(
        resolve(InputContext::GitLog, key(KeyCode::Enter)),
        Some(Message::ViewCommitDetail)
    ));
    assert!(matches!(
        resolve(InputContext::GitLog, key(KeyCode::Char('r'))),
        Some(Message::StartRebase)
    ));
}

#[test]
fn test_stash_list_bindings() {
    assert!(matches!(
        resolve(InputContext::StashList, key(KeyCode::Char('p'))),
        Some(Message::StashPop)
    ));
    assert!(matches!(
        resolve(InputContext::StashList, key(KeyCode::Char('a'))),
        Some(Message::StashApply)
    ));
}

#[test]
fn test_branch_list_bindings() {
    assert!(matches!(
        resolve(InputContext::BranchList, key(KeyCode::Enter)),
        Some(Message::CheckoutBranch)
    ));
    assert!(matches!(
        resolve(InputContext::BranchList, key(KeyCode::Char('n'))),
        Some(Message::StartCreateBranch)
    ));
}

#[test]
fn test_rebase_space_cycles_action() {
    assert!(matches!(
        resolve(InputContext::Rebase, key(KeyCode::Char(' '))),
        Some(Message::RebaseCycleAction)
    ));
}

#[test]
fn test_commit_detail_bindings() {
    let ctrl_down = key_mod(KeyCode::Down, KeyModifiers::control());
    assert!(matches!(
        resolve(InputContext::CommitDetail, ctrl_down),
        Some(Message::NextCommitDetail)
    ));
    assert!(matches!(
        resolve(InputContext::CommitDetail, key(KeyCode::Down)),
        Some(Message::NextHunkCommitDetail)
    ));
}

#[test]
fn test_dirty_checkout_stash() {
    assert!(matches!(
        resolve_dirty_checkout(key(KeyCode::Char('s')), false),
        Some(Message::DirtyCheckoutStash)
    ));
    // With conflicts, 's' is not available
    assert!(resolve_dirty_checkout(key(KeyCode::Char('s')), true).is_none());
}

#[test]
fn test_dirty_checkout_discard() {
    assert!(matches!(
        resolve_dirty_checkout(key(KeyCode::Char('d')), false),
        Some(Message::DirtyCheckoutDiscard)
    ));
    assert!(matches!(
        resolve_dirty_checkout(key(KeyCode::Char('d')), true),
        Some(Message::DirtyCheckoutDiscard)
    ));
}
