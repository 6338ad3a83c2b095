//! What the interface does with the outcome of the work it asked for:
//! status messages, popups that open, and the work that follows.
use vstd::prelude::*;
use vstd::string::StrSliceExecFns;

use crate::app::{App, Command, DiffState, DiffViewMode, Overlay, Panel};
use crate::log::{current_branch_index, BlameLine, BranchEntry, CommitDiffResult, LogEntry, StashEntry};
use crate::app::focus_scroll;
use crate::status::FileEntry;
use crate::text::{chars_of, concat2, concat3, contains_sub, has_sub, push_decimal, trim_text, trim_ws, dec_digits};
use crate::text_input::{split_nl, TextInput};
use crate::which_key::{entry_models, which_key_spec};

verus! {

broadcast use vstd::std_specs::btree::group_btree_axioms, vstd::laws_cmp::group_laws_cmp;

/// How a rebase run ended.
pub enum RebaseOutcome {
    Completed,
    /// git failed; `rebasing` tells whether it stopped in the middle.
    Failed { stderr: String, rebasing: bool },
    /// git could not be started.
    Error { message: String },
}

/// How the editor ended.
pub enum EditorOutcome {
    Closed,
    ExitCode { code: i32 },
    Failed { editor: String, error: String },
}

/// The editor to run: `$VISUAL`, else `$EDITOR`, else `vi`.
pub fn editor_choice(visual: Option<String>, editor: Option<String>) -> (e: String)
    ensures
        e@ == match (visual, editor) {
            (Some(v), _) => v@,
            (None, Some(x)) => x@,
            (None, None) => "vi"@,
        },
{
    match visual {
        Some(v) => v,
        None => match editor {
            Some(x) => x,
            None => "vi".to_owned(),
        },
    }
}

/// The shell command that opens `editor` on the file `path` at `line`.
pub fn editor_command(editor: &str, line: usize, path: &str) -> (s: String)
    ensures
        s@ == editor@ + " +"@ + dec_digits(line as nat) + " '"@ + path@ + "'"@,
{
    let mut s = String::new();
    s.push_str(editor);
    s.push_str(" +");
    push_decimal(&mut s, line as u64);
    s.push_str(" '");
    s.push_str(path);
    s.push_str("'");
    s
}

/// The script that git runs as its sequence editor: it copies the prepared
/// list at `todo_path` over the one git hands it.
pub fn rebase_editor_script(todo_path: &str) -> (s: String)
    ensures
        s@ == "#!/bin/sh\ncp "@ + todo_path@ + " \"$1\""@,
{
    let mut s = String::new();
    s.push_str("#!/bin/sh\ncp ");
    s.push_str(todo_path);
    s.push_str(" \"$1\"");
    s
}

/// The file list after a refresh: the selection held inside the list, the
/// header selected when the list is empty.
pub open spec fn refreshed(o: App, entries: Seq<FileEntry>) -> (bool, usize) {
    if !o.header_selected && entries.len() == 0 {
        (true, o.selected_index)
    } else if !o.header_selected && o.selected_index >= entries.len() {
        (o.header_selected, (entries.len() - 1) as usize)
    } else {
        (o.header_selected, o.selected_index)
    }
}

/// After a reload: load the diff again if asked.
pub open spec fn reload_cmd(reload: bool) -> Command {
    if reload {
        Command::LoadDiff
    } else {
        Command::Nothing
    }
}

/// A status message of `a` then `b`.
pub open spec fn says(app: App, m: Seq<char>) -> bool {
    app.status_message matches Some(s) && s@ == m
}

fn status2(app: &mut App, a: &str, b: &str)
    ensures
        *final(app) == (App { status_message: final(app).status_message, ..*old(app) }),
        says(*final(app), a@ + b@),
{
    app.status_message = Some(concat2(a, b));
}

fn status_lit(app: &mut App, a: &str)
    ensures
        *final(app) == (App { status_message: final(app).status_message, ..*old(app) }),
        says(*final(app), a@),
{
    app.status_message = Some(String::from_str(a));
}

/// The state right after switching branch.
pub open spec fn after_switch(o: App) -> App {
    App {
        diff_state: None,
        conflict_state: None,
        blame_data: None,
        selected_index: 0,
        header_selected: false,
        active_panel: Panel::FileList,
        ..o
    }
}

impl App {
    /// Open the command popup; `rebasing` tells whether a rebase is running.
    pub fn open_which_key(&mut self, rebasing: bool)
        ensures
            old(self).wf() ==> final(self).wf(),
            *final(self) == (App { which_key: final(self).which_key, ..*old(self) }),
            final(self).which_key matches Some(v) && entry_models(v@) == which_key_spec(*old(self), rebasing),
    {
        let v = self.build_which_key_entries(rebasing);
        self.which_key = Some(v);
    }

    /// Take freshly read statuses, branch and ahead/behind counts.
    pub fn apply_refresh(
        &mut self,
        entries: Vec<FileEntry>,
        branch_name: String,
        ahead_behind: (usize, usize),
        reload_diff: bool,
    ) -> (c: Command)
        ensures
            c == reload_cmd(reload_diff),
            *final(self) == (App {
                file_entries: entries,
                branch_name,
                ahead_behind,
                header_selected: refreshed(*old(self), entries@).0,
                selected_index: refreshed(*old(self), entries@).1,
                ..*old(self)
            }),
    {
        self.file_entries = entries;
        self.branch_name = branch_name;
        self.ahead_behind = ahead_behind;
        if !self.header_selected && self.file_entries.len() == 0 {
            self.header_selected = true;
        } else if !self.header_selected && self.selected_index >= self.file_entries.len() {
            self.selected_index = self.file_entries.len() - 1;
        }
        if reload_diff {
            Command::LoadDiff
        } else {
            Command::Nothing
        }
    }

    /// A file was staged.
    pub fn after_stage_file(&mut self, path: String) -> (c: Command)
        ensures
            old(self).wf() ==> final(self).wf(),
            c == (Command::Refresh { reload_diff: true }),
            says(*final(self), "Staged: "@ + path@),
            *final(self) == (App { status_message: final(self).status_message, ..*old(self) }),
    {
        status2(self, "Staged: ", path.as_str());
        Command::Refresh { reload_diff: true }
    }

    /// A file was unstaged.
    pub fn after_unstage_file(&mut self, path: String) -> (c: Command)
        ensures
            old(self).wf() ==> final(self).wf(),
            c == (Command::Refresh { reload_diff: true }),
            says(*final(self), "Unstaged: "@ + path@),
            *final(self) == (App { status_message: final(self).status_message, ..*old(self) }),
    {
        status2(self, "Unstaged: ", path.as_str());
        Command::Refresh { reload_diff: true }
    }

    /// A file's changes were discarded, or not.
    pub fn after_discard(&mut self, path: String, result: Result<(), String>) -> (c: Command)
        ensures
            old(self).wf() ==> final(self).wf(),
            *final(self) == (App { status_message: final(self).status_message, ..*old(self) }),
            match result {
                Ok(_) => c == (Command::Refresh { reload_diff: true }) && says(
                    *final(self),
                    "Discarded: "@ + path@,
                ),
                Err(e) => c is Nothing && says(*final(self), "Discard failed: "@ + e@),
            },
    {
        match result {
            Ok(_) => {
                status2(self, "Discarded: ", path.as_str());
                Command::Refresh { reload_diff: true }
            },
            Err(e) => {
                status2(self, "Discard failed: ", e.as_str());
                Command::Nothing
            },
        }
    }

    /// Part of a file was staged; after line staging, back to hunk mode.
    pub fn after_stage_content(&mut self, done: String, reset_line_mode: bool) -> (c: Command)
        ensures
            old(self).wf() ==> final(self).wf(),
            c == (Command::Refresh { reload_diff: true }),
            says(*final(self), done@),
            *final(self) == (App {
                status_message: final(self).status_message,
                diff_state: final(self).diff_state,
                ..*old(self)
            }),
            match old(self).diff_state {
                Some(ds) => if reset_line_mode {
                    final(self).diff_state matches Some(d2) && d2.selected_lines@ == Set::<usize>::empty()
                        && d2.hunk_changed_rows@ == Seq::<usize>::empty() && d2 == (DiffState {
                        selected_lines: d2.selected_lines,
                        hunk_changed_rows: d2.hunk_changed_rows,
                        view_mode: DiffViewMode::HunkNav,
                        saved_line_selection: None,
                        ..ds
                    })
                } else {
                    final(self).diff_state == old(self).diff_state
                },
                None => final(self).diff_state is None,
            },
    {
        self.status_message = Some(done);
        if reset_line_mode {
            if let Some(ds) = &mut self.diff_state {
                ds.view_mode = DiffViewMode::HunkNav;
                ds.selected_lines.clear();
                ds.hunk_changed_rows.clear();
                ds.saved_line_selection = None;
            }
        }
        Command::Refresh { reload_diff: true }
    }

    /// Blame was loaded for the diff's file, or not.
    pub fn after_blame(&mut self, result: Result<Vec<BlameLine>, String>)
        ensures
            old(self).wf() ==> final(self).wf(),
            match result {
                Ok(data) => says(*final(self), "Blame on"@) && *final(self) == (App {
                    blame_data: Some(data),
                    show_blame: true,
                    status_message: final(self).status_message,
                    ..*old(self)
                }),
                Err(e) => says(*final(self), "Blame failed: "@ + e@) && *final(self) == (App {
                    status_message: final(self).status_message,
                    ..*old(self)
                }),
            },
    {
        match result {
            Ok(data) => {
                self.blame_data = Some(data);
                self.show_blame = true;
                status_lit(self, "Blame on");
            },
            Err(e) => {
                status2(self, "Blame failed: ", e.as_str());
            },
        }
    }

    /// Text went to the clipboard, or not; the message shows its first forty
    /// characters.
    pub fn after_yank(&mut self, text: String, result: Result<(), String>)
        ensures
            old(self).wf() ==> final(self).wf(),
            *final(self) == (App { status_message: final(self).status_message, ..*old(self) }),
            match result {
                Ok(_) => says(
                    *final(self),
                    "Yanked: "@ + text@.take(if text@.len() < 40 { text@.len() as int } else { 40 }),
                ),
                Err(e) => says(*final(self), "Clipboard error: "@ + e@),
            },
    {
        match result {
            Ok(_) => {
                let n = text.as_str().unicode_len();
                let k = if n < 40 {
                    n
                } else {
                    40
                };
                let preview = text.as_str().substring_char(0, k);
                assert(preview@ =~= text@.take(k as int));
                status2(self, "Yanked: ", preview);
            },
            Err(e) => {
                status2(self, "Clipboard error: ", e.as_str());
            },
        }
    }

    /// The resolved conflict file was written, or not; once written it gets
    /// staged.
    pub fn after_write_resolved(&mut self, path: String, result: Result<(), String>) -> (c: Command)
        ensures
            old(self).wf() ==> final(self).wf(),
            match result {
                Ok(_) => c == (Command::StageResolved { path }) && *final(self) == *old(self),
                Err(e) => c is Nothing && says(*final(self), "Save failed: "@ + e@) && *final(self)
                    == (App { status_message: final(self).status_message, ..*old(self) }),
            },
    {
        match result {
            Ok(_) => Command::StageResolved { path },
            Err(e) => {
                status2(self, "Save failed: ", e.as_str());
                Command::Nothing
            },
        }
    }

    /// The resolved file was staged: the resolver closes.
    pub fn after_stage_resolved(&mut self, path: String) -> (c: Command)
        ensures
            old(self).wf() ==> final(self).wf(),
            c == (Command::Refresh { reload_diff: true }),
            says(*final(self), "Resolved and staged: "@ + path@),
            *final(self) == (App {
                conflict_state: None,
                status_message: final(self).status_message,
                ..*old(self)
            }),
    {
        self.conflict_state = None;
        status2(self, "Resolved and staged: ", path.as_str());
        Command::Refresh { reload_diff: true }
    }

    /// The branch list was read, or not; the current branch is selected.
    pub fn after_list_branches(&mut self, result: Result<Vec<BranchEntry>, String>)
        ensures
            old(self).wf() ==> final(self).wf(),
            match result {
                Ok(entries) => {
                    &&& final(self).overlay matches Overlay::BranchList { entries: es, selected, creating }
                        && es == entries && creating is None && if exists|k: int|
                        0 <= k < entries.len() && (#[trigger] entries[k]).is_current {
                        selected < entries.len() && entries[selected as int].is_current && forall|k: int|
                            0 <= k < selected ==> !(#[trigger] entries[k]).is_current
                    } else {
                        selected == 0
                    }
                    &&& *final(self) == (App { overlay: final(self).overlay, ..*old(self) })
                },
                Err(e) => says(*final(self), "Branch list failed: "@ + e@) && *final(self) == (App {
                    status_message: final(self).status_message,
                    ..*old(self)
                }),
            },
    {
        match result {
            Ok(entries) => {
                let sel = current_branch_index(&entries);
                self.overlay = Overlay::BranchList { entries, selected: sel, creating: None };
            },
            Err(e) => {
                status2(self, "Branch list failed: ", e.as_str());
            },
        }
    }

    /// The branch switch happened, or not. After it the diff, the resolver
    /// and blame are dropped and the first file is selected.
    pub fn after_checkout(&mut self, name: String, force: bool, result: Result<(), String>) -> (c: Command)
        ensures
            old(self).wf() ==> final(self).wf(),
            match result {
                Ok(_) => {
                    &&& c == (Command::Refresh { reload_diff: false })
                    &&& says(
                        *final(self),
                        "Switched to "@ + name@ + if force {
                            " (changes discarded)"@
                        } else {
                            Seq::<char>::empty()
                        },
                    )
                    &&& *final(self) == (App {
                        status_message: final(self).status_message,
                        ..after_switch(*old(self))
                    })
                },
                Err(e) => c is Nothing && says(*final(self), "Checkout failed: "@ + e@) && *final(self)
                    == (App { status_message: final(self).status_message, ..*old(self) }),
            },
    {
        match result {
            Ok(_) => {
                if force {
                    self.status_message = Some(concat3("Switched to ", name.as_str(), " (changes discarded)"));
                } else {
                    self.status_message = Some(concat2("Switched to ", name.as_str()));
                    assert(self.status_message->0@ =~= "Switched to "@ + name@ + Seq::<char>::empty());
                }
                self.diff_state = None;
                self.conflict_state = None;
                self.blame_data = None;
                self.selected_index = 0;
                self.header_selected = false;
                self.active_panel = Panel::FileList;
                Command::Refresh { reload_diff: false }
            },
            Err(e) => {
                status2(self, "Checkout failed: ", e.as_str());
                Command::Nothing
            },
        }
    }

    /// A branch was created (and checked out), or not.
    pub fn after_create_branch(&mut self, name: String, result: Result<(), String>) -> (c: Command)
        ensures
            old(self).wf() ==> final(self).wf(),
            *final(self) == (App { status_message: final(self).status_message, ..*old(self) }),
            match result {
                Ok(_) => c == (Command::Refresh { reload_diff: false }) && says(
                    *final(self),
                    "Created and switched to "@ + name@,
                ),
                Err(e) => c is Nothing && says(*final(self), "Create branch failed: "@ + e@),
            },
    {
        match result {
            Ok(_) => {
                status2(self, "Created and switched to ", name.as_str());
                Command::Refresh { reload_diff: false }
            },
            Err(e) => {
                status2(self, "Create branch failed: ", e.as_str());
                Command::Nothing
            },
        }
    }

    /// The changes were stashed, or not.
    pub fn after_stash_save(&mut self, result: Result<(), String>) -> (c: Command)
        ensures
            old(self).wf() ==> final(self).wf(),
            *final(self) == (App { status_message: final(self).status_message, ..*old(self) }),
            match result {
                Ok(_) => c == (Command::Refresh { reload_diff: old(self).diff_state is Some }) && says(
                    *final(self),
                    "Stashed changes"@,
                ),
                Err(e) => c is Nothing && says(*final(self), "Stash failed: "@ + e@),
            },
    {
        match result {
            Ok(_) => {
                status_lit(self, "Stashed changes");
                Command::Refresh { reload_diff: self.diff_state.is_some() }
            },
            Err(e) => {
                status2(self, "Stash failed: ", e.as_str());
                Command::Nothing
            },
        }
    }

    /// The changes were stashed before a branch switch, or not.
    pub fn after_stash_for_checkout(&mut self, branch: String, result: Result<(), String>) -> (c: Command)
        ensures
            old(self).wf() ==> final(self).wf(),
            match result {
                Ok(_) => c == (Command::Checkout { name: branch, force: false }) && *final(self) == *old(self),
                Err(e) => c is Nothing && says(*final(self), "Stash failed: "@ + e@) && *final(self)
                    == (App { status_message: final(self).status_message, ..*old(self) }),
            },
    {
        match result {
            Ok(_) => Command::Checkout { name: branch, force: false },
            Err(e) => {
                status2(self, "Stash failed: ", e.as_str());
                Command::Nothing
            },
        }
    }

    /// The stash list was read, or not; an empty list opens no popup.
    pub fn after_list_stashes(&mut self, result: Result<Vec<StashEntry>, String>)
        ensures
            old(self).wf() ==> final(self).wf(),
            match result {
                Ok(entries) => if entries.len() == 0 {
                    says(*final(self), "No stashes"@) && *final(self) == (App {
                        status_message: final(self).status_message,
                        ..*old(self)
                    })
                } else {
                    *final(self) == (App {
                        overlay: Overlay::StashList { entries, selected: 0 },
                        ..*old(self)
                    })
                },
                Err(e) => says(*final(self), "Stash list failed: "@ + e@) && *final(self) == (App {
                    status_message: final(self).status_message,
                    ..*old(self)
                }),
            },
    {
        match result {
            Ok(entries) => {
                if entries.len() == 0 {
                    status_lit(self, "No stashes");
                } else {
                    self.overlay = Overlay::StashList { entries, selected: 0 };
                }
            },
            Err(e) => {
                status2(self, "Stash list failed: ", e.as_str());
            },
        }
    }

    /// A stash was popped, applied or dropped (`verb` says which, `what` how
    /// a failure is reported), or not.
    fn after_stash_op(&mut self, verb: &str, what: &str, sel: usize, result: Result<(), String>) -> (ok: bool)
        ensures
            *final(self) == (App { status_message: final(self).status_message, ..*old(self) }),
            match result {
                Ok(_) => ok && says(*final(self), verb@ + " stash@{"@ + dec_digits(sel as nat) + "}"@),
                Err(e) => !ok && says(*final(self), what@ + e@),
            },
    {
        match result {
            Ok(_) => {
                let mut m = String::new();
                m.push_str(verb);
                m.push_str(" stash@{");
                push_decimal(&mut m, sel as u64);
                m.push_str("}");
                self.status_message = Some(m);
                true
            },
            Err(e) => {
                status2(self, what, e.as_str());
                false
            },
        }
    }

    /// A stash was popped, or not.
    pub fn after_stash_pop(&mut self, sel: usize, result: Result<(), String>) -> (c: Command)
        ensures
            old(self).wf() ==> final(self).wf(),
            *final(self) == (App { status_message: final(self).status_message, ..*old(self) }),
            match result {
                Ok(_) => c == (Command::Refresh { reload_diff: true }) && says(
                    *final(self),
                    "Popped stash@{"@ + dec_digits(sel as nat) + "}"@,
                ),
                Err(e) => c is Nothing && says(*final(self), "Stash pop failed: "@ + e@),
            },
    {
        let ok = self.after_stash_op("Popped", "Stash pop failed: ", sel, result);
        proof {
            reveal_strlit("Popped");
            reveal_strlit(" stash@{");
            reveal_strlit("Popped stash@{");
            assert("Popped"@ + " stash@{"@ =~= "Popped stash@{"@);
        }
        if ok {
            Command::Refresh { reload_diff: true }
        } else {
            Command::Nothing
        }
    }

    /// A stash was applied, or not.
    pub fn after_stash_apply(&mut self, sel: usize, result: Result<(), String>) -> (c: Command)
        ensures
            old(self).wf() ==> final(self).wf(),
            *final(self) == (App { status_message: final(self).status_message, ..*old(self) }),
            match result {
                Ok(_) => c == (Command::Refresh { reload_diff: true }) && says(
                    *final(self),
                    "Applied stash@{"@ + dec_digits(sel as nat) + "}"@,
                ),
                Err(e) => c is Nothing && says(*final(self), "Stash apply failed: "@ + e@),
            },
    {
        let ok = self.after_stash_op("Applied", "Stash apply failed: ", sel, result);
        proof {
            reveal_strlit("Applied");
            reveal_strlit(" stash@{");
            reveal_strlit("Applied stash@{");
            assert("Applied"@ + " stash@{"@ =~= "Applied stash@{"@);
        }
        if ok {
            Command::Refresh { reload_diff: true }
        } else {
            Command::Nothing
        }
    }

    /// A stash was dropped, or not; after a drop the list is read again.
    pub fn after_stash_drop(&mut self, sel: usize, result: Result<(), String>) -> (c: Command)
        ensures
            old(self).wf() ==> final(self).wf(),
            *final(self) == (App { status_message: final(self).status_message, ..*old(self) }),
            match result {
                Ok(_) => c == (Command::RelistStashes { sel }) && says(
                    *final(self),
                    "Dropped stash@{"@ + dec_digits(sel as nat) + "}"@,
                ),
                Err(e) => c is Nothing && says(*final(self), "Stash drop failed: "@ + e@),
            },
    {
        let ok = self.after_stash_op("Dropped", "Stash drop failed: ", sel, result);
        proof {
            reveal_strlit("Dropped");
            reveal_strlit(" stash@{");
            reveal_strlit("Dropped stash@{");
            assert("Dropped"@ + " stash@{"@ =~= "Dropped stash@{"@);
        }
        if ok {
            Command::RelistStashes { sel }
        } else {
            Command::Nothing
        }
    }

    /// The stash list read again after a drop: reopened unless empty, the
    /// selection held inside it.
    pub fn after_relist_stashes(&mut self, sel: usize, entries: Option<Vec<StashEntry>>)
        ensures
            old(self).wf() ==> final(self).wf(),
            match entries {
                Some(es) => if es.len() > 0 {
                    *final(self) == (App {
                        overlay: Overlay::StashList {
                            entries: es,
                            selected: if sel < es.len() - 1 {
                                sel
                            } else {
                                (es.len() - 1) as usize
                            },
                        },
                        ..*old(self)
                    })
                } else {
                    *final(self) == *old(self)
                },
                None => *final(self) == *old(self),
            },
    {
        if let Some(es) = entries {
            if es.len() > 0 {
                let last = es.len() - 1;
                let selected = if sel < last {
                    sel
                } else {
                    last
                };
                self.overlay = Overlay::StashList { entries: es, selected };
            }
        }
    }

    /// Open the commit message editor when something is staged, pre-filled
    /// with the message saved by an undo.
    pub fn after_check_staged(&mut self, has_staged: bool)
        ensures
            old(self).wf() ==> final(self).wf(),
            if !has_staged {
                says(*final(self), "Nothing staged to commit"@) && *final(self) == (App {
                    status_message: final(self).status_message,
                    ..*old(self)
                })
            } else {
                &&& final(self).overlay matches Overlay::CommitInput { input, amend } && !amend
                    && input.wf() && input.text() == split_nl(
                    match old(self).saved_commit_msg {
                        Some(m) => m@,
                        None => Seq::<char>::empty(),
                    },
                ) && input.cursor_row == input.lines.len() - 1
                &&& *final(self) == (App {
                    overlay: final(self).overlay,
                    saved_commit_msg: None,
                    ..*old(self)
                })
            },
    {
        if !has_staged {
            status_lit(self, "Nothing staged to commit");
            return;
        }
        let mut saved: Option<String> = None;
        std::mem::swap(&mut saved, &mut self.saved_commit_msg);
        let initial = match saved {
            Some(m) => m,
            None => String::new(),
        };
        self.overlay = Overlay::CommitInput { input: TextInput::new(initial.as_str()), amend: false };
    }

    /// The commit was made, or not.
    pub fn after_commit(&mut self, amend: bool, result: Result<String, String>) -> (c: Command)
        ensures
            old(self).wf() ==> final(self).wf(),
            match result {
                Ok(hash) => {
                    &&& c == (Command::Refresh { reload_diff: old(self).diff_state is Some })
                    &&& says(
                        *final(self),
                        (if amend {
                            "Amended"@
                        } else {
                            "Committed"@
                        }) + ": "@ + hash@,
                    )
                    &&& *final(self) == (App {
                        status_message: final(self).status_message,
                        overlay: Overlay::Closed,
                        saved_commit_msg: None,
                        ..*old(self)
                    })
                },
                Err(e) => c is Nothing && says(*final(self), "Commit failed: "@ + e@) && *final(self)
                    == (App { status_message: final(self).status_message, ..*old(self) }),
            },
    {
        match result {
            Ok(hash) => {
                let verb = if amend {
                    "Amended"
                } else {
                    "Committed"
                };
                self.status_message = Some(concat3(verb, ": ", hash.as_str()));
                self.overlay = Overlay::Closed;
                self.saved_commit_msg = None;
                Command::Refresh { reload_diff: self.diff_state.is_some() }
            },
            Err(e) => {
                status2(self, "Commit failed: ", e.as_str());
                Command::Nothing
            },
        }
    }

    /// Open the amend editor, pre-filled with the last commit's message.
    pub fn after_last_message(&mut self, message: Option<String>)
        ensures
            old(self).wf() ==> final(self).wf(),
            final(self).overlay matches Overlay::CommitInput { input, amend } && amend && input.wf()
                && input.text() == split_nl(
                match message {
                    Some(m) => m@,
                    None => Seq::<char>::empty(),
                },
            ),
            *final(self) == (App { overlay: final(self).overlay, ..*old(self) }),
    {
        let initial = match message {
            Some(m) => m,
            None => String::new(),
        };
        self.overlay = Overlay::CommitInput { input: TextInput::new(initial.as_str()), amend: true };
    }

    /// The last commit was undone (its message kept for the next commit), or
    /// not; an undo refused during a merge gets its own message.
    pub fn after_undo(&mut self, result: Result<String, String>) -> (c: Command)
        ensures
            old(self).wf() ==> final(self).wf(),
            match result {
                Ok(msg) => {
                    &&& c == (Command::Refresh { reload_diff: old(self).diff_state is Some })
                    &&& says(*final(self), "Undone last commit (message saved)"@)
                    &&& *final(self) == (App {
                        status_message: final(self).status_message,
                        saved_commit_msg: Some(msg),
                        ..*old(self)
                    })
                },
                Err(e) => {
                    &&& c is Nothing
                    &&& *final(self) == (App { status_message: final(self).status_message, ..*old(self) })
                    &&& if has_sub(e@, "Unmerged"@) || has_sub(e@, "merge"@) {
                        says(
                            *final(self),
                            "Cannot undo commit during a merge \u{2014} resolve or abort the merge first"@,
                        )
                    } else {
                        says(*final(self), "Undo failed: "@ + e@)
                    }
                },
            },
    {
        match result {
            Ok(msg) => {
                status_lit(self, "Undone last commit (message saved)");
                self.saved_commit_msg = Some(msg);
                Command::Refresh { reload_diff: self.diff_state.is_some() }
            },
            Err(e) => {
                let ev = chars_of(e.as_str());
                let unmerged = chars_of("Unmerged");
                let merge = chars_of("merge");
                if contains_sub(&ev, &unmerged) || contains_sub(&ev, &merge) {
                    status_lit(
                        self,
                        "Cannot undo commit during a merge \u{2014} resolve or abort the merge first",
                    );
                } else {
                    status2(self, "Undo failed: ", e.as_str());
                }
                Command::Nothing
            },
        }
    }

    /// The log was read, or not.
    pub fn after_load_log(&mut self, result: Result<Vec<LogEntry>, String>)
        ensures
            old(self).wf() ==> final(self).wf(),
            match result {
                Ok(entries) => *final(self) == (App {
                    overlay: Overlay::GitLog { entries, selected: 0, scroll: 0 },
                    ..*old(self)
                }),
                Err(e) => says(*final(self), "Log failed: "@ + e@) && *final(self) == (App {
                    status_message: final(self).status_message,
                    ..*old(self)
                }),
            },
    {
        match result {
            Ok(entries) => {
                self.overlay = Overlay::GitLog { entries, selected: 0, scroll: 0 };
            },
            Err(e) => {
                status2(self, "Log failed: ", e.as_str());
            },
        }
    }

    /// The rebase ran. Completed or stopped on a conflict, the statuses are
    /// read again; else the message says why.
    pub fn after_rebase(&mut self, outcome: RebaseOutcome) -> (c: Command)
        ensures
            old(self).wf() ==> final(self).wf(),
            *final(self) == (App { status_message: final(self).status_message, ..*old(self) }),
            match outcome {
                RebaseOutcome::Completed => c == (Command::Refresh { reload_diff: true }) && says(
                    *final(self),
                    "Rebase completed"@,
                ),
                RebaseOutcome::Failed { stderr, rebasing } => if rebasing {
                    c == (Command::Refresh { reload_diff: true }) && says(
                        *final(self),
                        "Rebase paused \u{2014} resolve conflicts, then Space \u{2192} R:continue / A:abort"@,
                    )
                } else {
                    c is Nothing && says(*final(self), "Rebase failed: "@ + trim_ws(stderr@))
                },
                RebaseOutcome::Error { message } => c is Nothing && says(
                    *final(self),
                    "Rebase error: "@ + message@,
                ),
            },
    {
        match outcome {
            RebaseOutcome::Completed => {
                status_lit(self, "Rebase completed");
                Command::Refresh { reload_diff: true }
            },
            RebaseOutcome::Failed { stderr, rebasing } => {
                if rebasing {
                    status_lit(
                        self,
                        "Rebase paused \u{2014} resolve conflicts, then Space \u{2192} R:continue / A:abort",
                    );
                    Command::Refresh { reload_diff: true }
                } else {
                    let err = trim_text(stderr.as_str());
                    status2(self, "Rebase failed: ", err.as_str());
                    Command::Nothing
                }
            },
            RebaseOutcome::Error { message } => {
                status2(self, "Rebase error: ", message.as_str());
                Command::Nothing
            },
        }
    }

    /// `rebase --continue` ran (`None`: no rebase was in progress);
    /// `still_rebasing` tells whether it stopped on the next conflict.
    pub fn after_rebase_continue(&mut self, result: Option<Result<String, String>>, still_rebasing: bool) -> (c: Command)
        ensures
            old(self).wf() ==> final(self).wf(),
            *final(self) == (App { status_message: final(self).status_message, ..*old(self) }),
            match result {
                None => c is Nothing && says(*final(self), "No rebase in progress"@),
                Some(Ok(msg)) => c == (Command::Refresh { reload_diff: old(self).diff_state is Some })
                    && if still_rebasing {
                    says(*final(self), "Rebase paused \u{2014} resolve next conflict, then continue"@)
                } else {
                    says(*final(self), msg@)
                },
                Some(Err(e)) => c is Nothing && says(*final(self), "Rebase continue failed: "@ + e@),
            },
    {
        match result {
            None => {
                status_lit(self, "No rebase in progress");
                Command::Nothing
            },
            Some(Ok(msg)) => {
                if still_rebasing {
                    status_lit(self, "Rebase paused \u{2014} resolve next conflict, then continue");
                } else {
                    self.status_message = Some(msg);
                }
                Command::Refresh { reload_diff: self.diff_state.is_some() }
            },
            Some(Err(e)) => {
                status2(self, "Rebase continue failed: ", e.as_str());
                Command::Nothing
            },
        }
    }

    /// `rebase --abort` ran (`None`: no rebase was in progress).
    pub fn after_rebase_abort(&mut self, result: Option<Result<String, String>>) -> (c: Command)
        ensures
            old(self).wf() ==> final(self).wf(),
            *final(self) == (App { status_message: final(self).status_message, ..*old(self) }),
            match result {
                None => c is Nothing && says(*final(self), "No rebase in progress"@),
                Some(Ok(msg)) => c == (Command::Refresh { reload_diff: old(self).diff_state is Some })
                    && says(*final(self), msg@),
                Some(Err(e)) => c is Nothing && says(*final(self), "Rebase abort failed: "@ + e@),
            },
    {
        match result {
            None => {
                status_lit(self, "No rebase in progress");
                Command::Nothing
            },
            Some(Ok(msg)) => {
                self.status_message = Some(msg);
                Command::Refresh { reload_diff: self.diff_state.is_some() }
            },
            Some(Err(e)) => {
                status2(self, "Rebase abort failed: ", e.as_str());
                Command::Nothing
            },
        }
    }

    /// The editor was closed; then everything is read again.
    pub fn after_editor(&mut self, file_path: String, outcome: EditorOutcome) -> (c: Command)
        ensures
            old(self).wf() ==> final(self).wf(),
            c == (Command::Refresh { reload_diff: old(self).diff_state is Some }),
            *final(self) == (App { status_message: final(self).status_message, ..*old(self) }),
            match outcome {
                EditorOutcome::Closed => says(*final(self), "Editor closed: "@ + file_path@),
                EditorOutcome::ExitCode { code } => final(self).status_message matches Some(m)
                    && m@ == "Editor exited with code "@ + crate::text::padded(code as int, 0),
                EditorOutcome::Failed { editor, error } => says(
                    *final(self),
                    "Failed to launch '"@ + editor@ + "': "@ + error@,
                ),
            },
    {
        match outcome {
            EditorOutcome::Closed => {
                status2(self, "Editor closed: ", file_path.as_str());
            },
            EditorOutcome::ExitCode { code } => {
                let mut m = String::from_str("Editor exited with code ");
                crate::text::push_padded(&mut m, code as i64, 0);
                self.status_message = Some(m);
            },
            EditorOutcome::Failed { editor, error } => {
                let mut m = concat3("Failed to launch '", editor.as_str(), "': ");
                m.push_str(error.as_str());
                self.status_message = Some(m);
            },
        }
        Command::Refresh { reload_diff: self.diff_state.is_some() }
    }
}


/// The log behind a log popup or a commit popup.
pub open spec fn log_of(o: Overlay) -> Seq<LogEntry> {
    match o {
        Overlay::GitLog { entries, .. } => entries@,
        Overlay::CommitDetail { log_entries, .. } => log_entries@,
        _ => Seq::empty(),
    }
}

impl App {
    /// A commit's diff was computed, or not. It opens at its first hunk, in
    /// a viewport of 80% of the terminal less its border.
    pub fn after_commit_detail(
        &mut self,
        hash: String,
        message: String,
        index: usize,
        result: Result<CommitDiffResult, String>,
    )
        requires
            old(self).overlay is GitLog || old(self).overlay is CommitDetail,
            old(self).term_height * 80 <= usize::MAX,
        ensures
            match result {
                Ok(r) => {
                    let viewport = (old(self).term_height * 80 / 100) as usize;
                    let vh = viewport.saturating_sub(2);
                    &&& final(self).overlay matches Overlay::CommitDetail {
                        hash: h,
                        message: m,
                        left_lines,
                        right_lines,
                        hunks,
                        current_hunk,
                        file_extensions,
                        scroll,
                        viewport_height,
                        log_entries,
                        log_selected,
                    } && h == hash && m == message && left_lines == r.left_lines && right_lines
                        == r.right_lines && hunks == r.hunks && file_extensions == r.file_extensions
                        && current_hunk == 0 && viewport_height == vh && scroll == (if r.hunks.len() > 0 {
                        focus_scroll(r.hunks@[0].display_start, vh)
                    } else {
                        0
                    }) && log_entries@ == log_of(old(self).overlay) && log_selected == index
                    &&& *final(self) == (App { overlay: final(self).overlay, ..*old(self) })
                },
                Err(e) => says(*final(self), "Diff failed: "@ + e@) && *final(self) == (App {
                    status_message: final(self).status_message,
                    ..*old(self)
                }),
            },
    {
        match result {
            Ok(r) => {
                let mut o = Overlay::Closed;
                std::mem::swap(&mut o, &mut self.overlay);
                let log_entries = match o {
                    Overlay::GitLog { entries, .. } => entries,
                    Overlay::CommitDetail { log_entries, .. } => log_entries,
                    _ => Vec::new(),
                };
                let viewport = (self.term_height * 80 / 100).saturating_sub(2);
                let scroll = if r.hunks.len() > 0 {
                    r.hunks[0].display_start.saturating_sub(viewport / 3)
                } else {
                    0
                };
                self.overlay = Overlay::CommitDetail {
                    hash,
                    message,
                    left_lines: r.left_lines,
                    right_lines: r.right_lines,
                    hunks: r.hunks,
                    current_hunk: 0,
                    file_extensions: r.file_extensions,
                    scroll,
                    viewport_height: viewport,
                    log_entries,
                    log_selected: index,
                };
            },
            Err(e) => {
                status2(self, "Diff failed: ", e.as_str());
            },
        }
    }
}

} // verus!
