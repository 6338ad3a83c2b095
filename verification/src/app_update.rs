//! The interface's entry points: a fresh state, and one message handled.
use vstd::prelude::*;

use crate::app::{focus_line, lemma_hunk_at_in_range, lemma_hunk_ending_after_in_range, App, Command, DiffViewMode, Message, Overlay, Panel};
use crate::app_lines::{
    enter_edit_mode_post, enter_line_mode_post, exit_line_mode_post, next_hunk_post, prev_hunk_post,
    scroll_left_post, scroll_right_post, select_all_lines_post, switch_panel_post, toggle_line_post,
};
use crate::app_load::request_large_file_post;
use crate::app_nav::{keep_visible_ok, move_down_post, move_up_post};
use crate::app_popups::{
    checkout_branch_post, close_overlay_post, confirm_action_post, confirm_create_branch_post,
    conflict_pick_post, dirty_checkout_discard_post, dirty_checkout_stash_post, discard_changes_post,
    git_fetch_post, navigate_commit_detail_post, next_hunk_commit_detail_post,
    open_commit_amend_post, overlay_wf, prev_hunk_commit_detail_post, quit_post,
    rebase_cycle_action_post, rebase_execute_post, rebase_models, rebase_move_down_post, rebase_move_up_post,
    stash_apply_post, stash_drop_post, stash_pop_post, start_create_branch_post, start_rebase_post,
    undo_last_commit_post, view_commit_detail_post,
};
use crate::app_stage::{
    conflict_save_post, cycle_theme_post, do_commit_post, stage_current_hunk_post, stage_file_post,
    stage_selected_lines_post, toggle_blame_post, unstage_file_post, yank_post,
};
use crate::conflict::ConflictResolution;
use crate::status::FileEntry;
use crate::theme::Theme;

verus! {

impl App {
    /// The state for a repository at `workdir` with these files: the file
    /// list focused, the header selected when there is no file.
    pub fn new(
        workdir: String,
        file_entries: Vec<FileEntry>,
        branch_name: String,
        ahead_behind: (usize, usize),
        theme: Theme,
    ) -> (app: App)
        ensures
            app.workdir == workdir,
            app.file_entries == file_entries,
            app.branch_name == branch_name,
            app.ahead_behind == ahead_behind,
            app.theme == theme,
            app.selected_index == 0,
            app.header_selected == (file_entries.len() == 0),
            app.active_panel == Panel::FileList,
            app.diff_state is None,
            !app.should_quit,
            app.status_message is None,
            app.overlay is Closed,
            app.saved_commit_msg is None,
            app.file_filter is None,
            app.blame_data is None,
            !app.show_blame,
            app.pending_editor is None,
            app.pending_terminal_cmd is None,
            app.which_key is None,
            app.conflict_state is None,
            app.term_height == 24,
            app.large_file_skipped is None,
            app.wf(),
    {
        let no_files = file_entries.len() == 0;
        App {
            workdir,
            file_entries,
            selected_index: 0,
            header_selected: no_files,
            active_panel: Panel::FileList,
            diff_state: None,
            branch_name,
            ahead_behind,
            should_quit: false,
            status_message: None,
            overlay: Overlay::Closed,
            saved_commit_msg: None,
            file_filter: None,
            blame_data: None,
            show_blame: false,
            pending_editor: None,
            pending_terminal_cmd: None,
            which_key: None,
            conflict_state: None,
            theme,
            term_height: 24,
            large_file_skipped: None,
        }
    }

    /// The diff, the conflict resolver and the popup each keep their
    /// invariant.
    pub open spec fn wf(self) -> bool {
        &&& self.diff_wf()
        &&& self.conflict_state matches Some(cs) ==> cs.wf()
        &&& overlay_wf(self.overlay)
    }

    /// What handling `msg` needs: the invariant, and sums that stay inside
    /// `usize`.
    pub open spec fn update_ok(self, msg: Message) -> bool {
        &&& self.wf()
        &&& msg == Message::MoveUp ==> self.move_up_ok()
        &&& msg == Message::MoveDown ==> self.move_down_ok()
        &&& msg == Message::ScrollRight ==> (self.diff_state matches Some(ds) ==> ds.h_scroll + 4
            <= usize::MAX)
        &&& msg == Message::EnterLineMode ==> (self.diff_state matches Some(ds) ==> (ds.hunks.len() > 0
            && ds.changed_all().len() > 0 ==> keep_visible_ok(
            ds.line_mode_cursor(),
            ds.scroll,
            ds.viewport_height,
        )))
    }

    /// What handling `msg` does.
    pub open spec fn update_post(o: App, n: App, c: Command, msg: Message) -> bool {
        match msg {
            Message::OpenWhichKey => c is OpenWhichKey && n == o,
            Message::CycleTheme => cycle_theme_post(o, n, c),
            Message::Quit => c is Nothing && quit_post(o, n),
            Message::CloseOverlay => c is Nothing && close_overlay_post(o, n),
            Message::Refresh | Message::AutoRefresh => c == (Command::Refresh {
                reload_diff: o.diff_state is Some,
            }) && n == o,
            Message::MoveUp => move_up_post(o, n, c),
            Message::MoveDown => move_down_post(o, n, c),
            Message::ScrollLeft => c is Nothing && scroll_left_post(o, n),
            Message::ScrollRight => c is Nothing && scroll_right_post(o, n),
            Message::PrevHunk => c is Nothing && prev_hunk_post(o, n),
            Message::NextHunk => c is Nothing && next_hunk_post(o, n),
            Message::SwitchPanel => if o.active_panel == Panel::FileList && o.large_file_skipped is Some {
                request_large_file_post(o, n, c)
            } else {
                c is Nothing && switch_panel_post(o, n)
            },
            Message::StageFile => stage_file_post(o, n, c),
            Message::StageHunk => stage_current_hunk_post(o, n, c),
            Message::UnstageFile => unstage_file_post(o, n, c),
            Message::DiscardChanges => c is Nothing && discard_changes_post(o, n),
            Message::StageLines => stage_selected_lines_post(o, n, c),
            Message::EnterLineMode => c is Nothing && enter_line_mode_post(o, n),
            Message::ExitLineMode => c is Nothing && exit_line_mode_post(o, n),
            Message::ToggleLine => c is Nothing && toggle_line_post(o, n),
            Message::SelectAllLines => c is Nothing && select_all_lines_post(o, n),
            Message::EnterEditMode => c is Nothing && enter_edit_mode_post(o, n),
            Message::ToggleBlame => toggle_blame_post(o, n, c),
            Message::YankToClipboard => yank_post(o, n, c),
            Message::ConflictPickOurs => c is Nothing && conflict_pick_post(o, n, ConflictResolution::Ours),
            Message::ConflictPickTheirs => c is Nothing && conflict_pick_post(
                o,
                n,
                ConflictResolution::Theirs,
            ),
            Message::ConflictPickBoth => c is Nothing && conflict_pick_post(o, n, ConflictResolution::Both),
            Message::ConflictSave => conflict_save_post(o, n, c),
            Message::CloseConflict => c is Nothing && n == (App { active_panel: Panel::FileList, ..o }),
            Message::StartFilter => c is Nothing && (n.file_filter matches Some(f) && f@ == Seq::<
                char,
            >::empty()) && n == (App { file_filter: n.file_filter, ..o }),
            Message::ClearFilter => c is Nothing && n == (App { file_filter: None, ..o }),
            Message::GitFetch => c is Nothing && git_fetch_post(o, n),
            Message::OpenBranchList => c is ListBranches && n == o,
            Message::CheckoutBranch => checkout_branch_post(o, n, c),
            Message::StartCreateBranch => c is Nothing && start_create_branch_post(o, n),
            Message::ConfirmCreateBranch => confirm_create_branch_post(o, n, c),
            Message::StashSave => c is StashSave && n == o,
            Message::OpenStashList => c is ListStashes && n == o,
            Message::StashPop => stash_pop_post(o, n, c),
            Message::StashApply => stash_apply_post(o, n, c),
            Message::StashDrop => stash_drop_post(o, n, c),
            Message::OpenCommit => c is CheckStaged && n == o,
            Message::OpenCommitAmend => c is Nothing && open_commit_amend_post(o, n),
            Message::ConfirmCommit => do_commit_post(o, n, c),
            Message::ConfirmAction => confirm_action_post(o, n, c),
            Message::UndoLastCommit => c is Nothing && undo_last_commit_post(o, n),
            Message::OpenGitLog => c is LoadLog && n == o,
            Message::DirtyCheckoutStash => dirty_checkout_stash_post(o, n, c),
            Message::DirtyCheckoutDiscard => dirty_checkout_discard_post(o, n, c),
            Message::StartRebase => c is Nothing && start_rebase_post(o, n),
            Message::RebaseCycleAction => c is Nothing && rebase_cycle_action_post(o, n),
            Message::RebaseMoveUp => c is Nothing && rebase_move_up_post(o, n),
            Message::RebaseMoveDown => c is Nothing && rebase_move_down_post(o, n),
            Message::RebaseExecute => rebase_execute_post(o, n, c),
            Message::RebaseContinue => c is RebaseContinue && n == o,
            Message::RebaseAbort => c is RebaseAbort && n == o,
            Message::ViewCommitDetail => view_commit_detail_post(o, n, c),
            Message::PrevCommitDetail => navigate_commit_detail_post(o, n, c, false),
            Message::NextCommitDetail => navigate_commit_detail_post(o, n, c, true),
            Message::PrevHunkCommitDetail => c is Nothing && prev_hunk_commit_detail_post(o, n),
            Message::NextHunkCommitDetail => c is Nothing && next_hunk_commit_detail_post(o, n),
        }
    }

    /// Handle one message; the work it needs done outside comes back as a
    /// `Command`.
    pub fn update(&mut self, msg: Message) -> (c: Command)
        requires
            old(self).update_ok(msg),
        ensures
            App::update_post(*old(self), *final(self), c, msg),
    {
        match msg {
            Message::OpenWhichKey => Command::OpenWhichKey,
            Message::CycleTheme => self.handle_cycle_theme(),
            Message::Quit => {
                self.handle_quit();
                Command::Nothing
            },
            Message::CloseOverlay => {
                self.handle_close_overlay();
                Command::Nothing
            },
            Message::Refresh | Message::AutoRefresh => Command::Refresh {
                reload_diff: self.diff_state.is_some(),
            },
            Message::MoveUp => self.handle_move_up(),
            Message::MoveDown => self.handle_move_down(),
            Message::ScrollLeft => {
                self.handle_scroll_left();
                Command::Nothing
            },
            Message::ScrollRight => {
                self.handle_scroll_right();
                Command::Nothing
            },
            Message::PrevHunk => {
                self.handle_prev_hunk();
                Command::Nothing
            },
            Message::NextHunk => {
                self.handle_next_hunk();
                Command::Nothing
            },
            Message::SwitchPanel => {
                if self.active_panel == Panel::FileList && self.large_file_skipped.is_some() {
                    self.request_large_file()
                } else {
                    self.handle_switch_panel();
                    Command::Nothing
                }
            },
            Message::StageFile => self.handle_stage_file(),
            Message::StageHunk => self.stage_current_hunk(),
            Message::UnstageFile => self.handle_unstage_file(),
            Message::DiscardChanges => {
                self.handle_discard_changes();
                Command::Nothing
            },
            Message::StageLines => self.stage_selected_lines(),
            Message::EnterLineMode => {
                self.handle_enter_line_mode();
                Command::Nothing
            },
            Message::ExitLineMode => {
                self.handle_exit_line_mode();
                Command::Nothing
            },
            Message::ToggleLine => {
                self.handle_toggle_line();
                Command::Nothing
            },
            Message::SelectAllLines => {
                self.handle_select_all_lines();
                Command::Nothing
            },
            Message::EnterEditMode => {
                self.handle_enter_edit_mode();
                Command::Nothing
            },
            Message::ToggleBlame => self.handle_toggle_blame(),
            Message::YankToClipboard => self.handle_yank(),
            Message::ConflictPickOurs => {
                self.handle_conflict_pick(ConflictResolution::Ours);
                Command::Nothing
            },
            Message::ConflictPickTheirs => {
                self.handle_conflict_pick(ConflictResolution::Theirs);
                Command::Nothing
            },
            Message::ConflictPickBoth => {
                self.handle_conflict_pick(ConflictResolution::Both);
                Command::Nothing
            },
            Message::ConflictSave => self.handle_conflict_save(),
            Message::CloseConflict => {
                self.active_panel = Panel::FileList;
                Command::Nothing
            },
            Message::StartFilter => {
                self.file_filter = Some(String::new());
                Command::Nothing
            },
            Message::ClearFilter => {
                self.file_filter = None;
                Command::Nothing
            },
            Message::GitFetch => {
                self.handle_git_fetch();
                Command::Nothing
            },
            Message::OpenBranchList => Command::ListBranches,
            Message::CheckoutBranch => self.handle_checkout_branch(),
            Message::StartCreateBranch => {
                self.handle_start_create_branch();
                Command::Nothing
            },
            Message::ConfirmCreateBranch => self.handle_confirm_create_branch(),
            Message::StashSave => Command::StashSave,
            Message::OpenStashList => Command::ListStashes,
            Message::StashPop => self.handle_stash_pop(),
            Message::StashApply => self.handle_stash_apply(),
            Message::StashDrop => self.handle_stash_drop(),
            Message::OpenCommit => Command::CheckStaged,
            Message::OpenCommitAmend => {
                self.handle_open_commit_amend();
                Command::Nothing
            },
            Message::ConfirmCommit => self.do_commit(),
            Message::ConfirmAction => self.handle_confirm_action(),
            Message::UndoLastCommit => {
                self.handle_undo_last_commit();
                Command::Nothing
            },
            Message::OpenGitLog => Command::LoadLog,
            Message::DirtyCheckoutStash => self.handle_dirty_checkout_stash(),
            Message::DirtyCheckoutDiscard => self.handle_dirty_checkout_discard(),
            Message::StartRebase => {
                self.handle_start_rebase();
                Command::Nothing
            },
            Message::RebaseCycleAction => {
                self.handle_rebase_cycle_action();
                Command::Nothing
            },
            Message::RebaseMoveUp => {
                self.handle_rebase_move_up();
                Command::Nothing
            },
            Message::RebaseMoveDown => {
                self.handle_rebase_move_down();
                Command::Nothing
            },
            Message::RebaseExecute => self.handle_rebase_execute(),
            Message::RebaseContinue => Command::RebaseContinue,
            Message::RebaseAbort => Command::RebaseAbort,
            Message::ViewCommitDetail => self.handle_view_commit_detail(),
            Message::PrevCommitDetail => self.handle_navigate_commit_detail(false),
            Message::NextCommitDetail => self.handle_navigate_commit_detail(true),
            Message::PrevHunkCommitDetail => {
                self.handle_prev_hunk_commit_detail();
                Command::Nothing
            },
            Message::NextHunkCommitDetail => {
                self.handle_next_hunk_commit_detail();
                Command::Nothing
            },
        }
    }
}

proof fn lemma_move_up_keeps_wf(o: App, n: App, c: Command)
    requires
        o.update_ok(Message::MoveUp),
        move_up_post(o, n, c),
    ensures
        n.wf(),
{
    if let Some(ds) = o.diff_state {
        lemma_hunk_ending_after_in_range(ds.hunks@, focus_line(ds.scroll.saturating_sub(1), ds.viewport_height) as usize);
        if let Some(r) = ds.row_above() {
            lemma_hunk_at_in_range(ds.hunks@, r);
        }
    }
}

proof fn lemma_move_down_keeps_wf(o: App, n: App, c: Command)
    requires
        o.update_ok(Message::MoveDown),
        move_down_post(o, n, c),
    ensures
        n.wf(),
{
    if let Some(ds) = o.diff_state {
        let s = if ds.scroll < ds.max_scroll {
            (ds.scroll + 1) as usize
        } else {
            ds.scroll
        };
        lemma_hunk_ending_after_in_range(ds.hunks@, focus_line(s, ds.viewport_height) as usize);
        if let Some(r) = ds.row_below() {
            lemma_hunk_at_in_range(ds.hunks@, r);
        }
    }
}

/// Law: handling a message keeps the state well formed (the diff, the
/// conflict resolver and the popup keep their invariants).
pub proof fn law_update_keeps_wf(o: App, n: App, c: Command, msg: Message)
    requires
        o.update_ok(msg),
        App::update_post(o, n, c, msg),
    ensures
        n.wf(),
{
    match msg {
        Message::MoveUp => lemma_move_up_keeps_wf(o, n, c),
        Message::MoveDown => lemma_move_down_keeps_wf(o, n, c),
        Message::StartRebase => {
            if let Overlay::Rebase { entries, .. } = n.overlay {
                assert(entries.len() == rebase_models(entries@).len());
            }
        },
        _ => {},
    }
}

} // verus!
