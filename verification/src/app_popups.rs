//! The popups: confirmations, the branch and stash lists, the log, the
//! commit view and the interactive rebase list.
use vstd::prelude::*;

use crate::app::{
    cycled, focus_scroll, App, Command, Overlay, PendingAction, RebaseAction, RebaseEntry,
    TerminalCmd,
};
use crate::conflict::ConflictResolution;
use crate::log::{checkout_name, LogEntry};
use crate::status::FileStatus;
use crate::text::{concat2, concat3};
use crate::text_input::join_with_nl;
use vstd::string::StrSliceExecFns;

verus! {

/// `v` with the items at `i - 1` and `i` swapped.
pub open spec fn swap_adj<T>(v: Seq<T>, i: int) -> Seq<T> {
    v.update(i - 1, v[i]).update(i, v[i - 1])
}

/// The rebase list after moving the selected entry up.
pub open spec fn rebase_up(es: Seq<RebaseEntry>, s: usize) -> (Seq<RebaseEntry>, usize) {
    if s > 0 {
        (swap_adj(es, s as int), (s - 1) as usize)
    } else {
        (es, s)
    }
}

/// The rebase list after moving the selected entry down.
pub open spec fn rebase_down(es: Seq<RebaseEntry>, s: usize) -> (Seq<RebaseEntry>, usize) {
    if s + 1 < es.len() {
        (swap_adj(es, s + 1), (s + 1) as usize)
    } else {
        (es, s)
    }
}

/// Moving an entry up and then down gives back the list and the selection.
pub proof fn law_rebase_up_then_down(es: Seq<RebaseEntry>, s: usize)
    requires
        0 < s < es.len(),
    ensures
        rebase_down(rebase_up(es, s).0, rebase_up(es, s).1) == (es, s),
{
    assert(swap_adj(swap_adj(es, s as int), s as int) =~= es);
}

/// The word git uses for an action.
pub open spec fn action_word(a: RebaseAction) -> Seq<char> {
    match a {
        RebaseAction::Pick => "pick"@,
        RebaseAction::Squash => "squash"@,
        RebaseAction::Drop => "drop"@,
    }
}

/// The rebase list as git reads it: a line per commit, `action hash message`.
pub open spec fn todo_text(es: Seq<RebaseEntry>) -> Seq<char> {
    join_with_nl(es.map_values(|e: RebaseEntry| action_word(e.action) + " "@ + e.hash@ + " "@ + e.message@))
}

/// The rebase list for a base commit at `sel` in the log: the newer commits,
/// oldest first, each picked.
pub open spec fn rebase_list_models(log: Seq<LogEntry>, sel: int) -> Seq<(Seq<char>, Seq<char>, RebaseAction)> {
    Seq::new(sel as nat, |i: int| (log[sel - 1 - i].hash@, log[sel - 1 - i].message@, RebaseAction::Pick))
}

pub open spec fn rebase_models(es: Seq<RebaseEntry>) -> Seq<(Seq<char>, Seq<char>, RebaseAction)> {
    es.map_values(|e: RebaseEntry| (e.hash@, e.message@, e.action))
}

/// The selected index of each list popup lies inside its list.
pub open spec fn overlay_wf(o: Overlay) -> bool {
    match o {
        Overlay::Rebase { entries, selected, .. } => selected < entries.len(),
        Overlay::GitLog { entries, selected, .. } => selected == 0 || selected < entries.len(),
        Overlay::CommitInput { input, .. } => input.wf(),
        Overlay::CommitDetail { hunks, current_hunk, log_entries, log_selected, .. } => {
            &&& log_selected < log_entries.len()
            &&& (hunks.len() == 0 || current_hunk < hunks.len())
        },
        _ => true,
    }
}

fn rebase_list(entries: &Vec<LogEntry>, sel: usize) -> (out: Vec<RebaseEntry>)
    requires
        sel <= entries.len(),
    ensures
        rebase_models(out@) == rebase_list_models(entries@, sel as int),
{
    let mut out: Vec<RebaseEntry> = Vec::new();
    let mut k: usize = 0;
    while k < sel
        invariant
            k <= sel <= entries.len(),
            rebase_models(out@) == rebase_list_models(entries@, sel as int).take(k as int),
        decreases sel - k,
    {
        let e = &entries[sel - 1 - k];
        let ghost before = rebase_models(out@);
        out.push(RebaseEntry { hash: e.hash.clone(), message: e.message.clone(), action: RebaseAction::Pick });
        assert(rebase_models(out@) =~= before.push((e.hash@, e.message@, RebaseAction::Pick)));
        assert(rebase_list_models(entries@, sel as int).take(k + 1) =~= rebase_list_models(
            entries@,
            sel as int,
        ).take(k as int).push(rebase_list_models(entries@, sel as int)[k as int]));
        k = k + 1;
    }
    assert(rebase_list_models(entries@, sel as int).take(sel as int) =~= rebase_list_models(
        entries@,
        sel as int,
    ));
    out
}

fn todo_line(e: &RebaseEntry) -> (s: String)
    ensures
        s@ == action_word(e.action) + " "@ + e.hash@ + " "@ + e.message@,
{
    let mut s = String::new();
    s.push_str(e.action.label());
    s.push_str(" ");
    s.push_str(e.hash.as_str());
    s.push_str(" ");
    s.push_str(e.message.as_str());
    assert(s@ =~= action_word(e.action) + " "@ + e.hash@ + " "@ + e.message@);
    s
}

/// The rebase list as git reads it.
pub fn build_todo(es: &Vec<RebaseEntry>) -> (s: String)
    ensures
        s@ == todo_text(es@),
{
    let ghost lines = es@.map_values(
        |e: RebaseEntry| action_word(e.action) + " "@ + e.hash@ + " "@ + e.message@,
    );
    let mut s = String::new();
    if es.len() == 0 {
        assert(lines =~= Seq::<Seq<char>>::empty());
        return s;
    }
    let first = todo_line(&es[0]);
    s.push_str(first.as_str());
    assert(lines.take(1) =~= seq![lines[0]]);
    let mut i: usize = 1;
    while i < es.len()
        invariant
            1 <= i <= es.len(),
            lines == es@.map_values(
                |e: RebaseEntry| action_word(e.action) + " "@ + e.hash@ + " "@ + e.message@,
            ),
            s@ == join_with_nl(lines.take(i as int)),
        decreases es.len() - i,
    {
        let line = todo_line(&es[i]);
        s.push('\n');
        s.push_str(line.as_str());
        assert(lines.take(i + 1).drop_last() =~= lines.take(i as int));
        assert(s@ =~= join_with_nl(lines.take(i as int)) + seq!['\n'] + lines[i as int]);
        i = i + 1;
    }
    assert(lines.take(es.len() as int) =~= lines);
    s
}

/// Close the popup, or quit when none is open.
pub open spec fn quit_post(o: App, n: App) -> bool {
    &&& (n == (if o.overlay is Closed {
        App { should_quit: true, ..o }
    } else {
        App { overlay: Overlay::Closed, ..o }
    }))
}

/// Close the popup; closing a commit's diff goes back to the log.
pub open spec fn close_overlay_post(o: App, n: App) -> bool {
    &&& (n == (App {
        overlay: match o.overlay {
            Overlay::CommitDetail { log_entries, log_selected, .. } => Overlay::GitLog {
                entries: log_entries,
                selected: log_selected,
                scroll: 0,
            },
            _ => Overlay::Closed,
        },
        ..o
    }))
}

/// Resolve the current conflict section with `resolution`.
pub open spec fn conflict_pick_post(o: App, n: App, resolution: ConflictResolution) -> bool {
    &&& (match o.conflict_state {
        Some(cs) => {
            &&& n.conflict_state matches Some(c2) && c2.wf()
                && c2.sections[cs.current_section as int].resolution == resolution
                && c2.sections[cs.current_section as int].model()
                == cs.sections[cs.current_section as int].model() && c2.sections.len()
                == cs.sections.len() && (forall|i: int|
                0 <= i < cs.sections.len() && i != cs.current_section ==> (
                #[trigger] c2.sections[i]) == cs.sections[i]) && c2.current_section
                == cs.current_section && c2.prefix@ == cs.prefix@ && c2.file_path
                == cs.file_path && c2.left_name == cs.left_name && c2.right_name
                == cs.right_name
            &&& n.status_message matches Some(m) && m@ == "Picked: "@ + match resolution {
                ConflictResolution::Ours => cs.left_name@,
                ConflictResolution::Theirs => cs.right_name@,
                ConflictResolution::Both => seq!['b', 'o', 't', 'h'],
                ConflictResolution::Unresolved => seq!['u', 'n', 'r', 'e', 's', 'o', 'l', 'v', 'e', 'd'],
            }
            &&& n == (App {
                conflict_state: n.conflict_state,
                status_message: n.status_message,
                ..o
            })
        },
        None => n == o,
    })
}

/// Ask before discarding the selected file's changes (unstaged or
/// conflicted files only).
pub open spec fn discard_changes_post(o: App, n: App) -> bool {
    &&& (match crate::which_key::selected_entry(o) {
        Some(e) => match e.status {
            FileStatus::Unstaged(_) | FileStatus::Conflict => {
                &&& n == (App { overlay: n.overlay, ..o })
                &&& n.overlay matches Overlay::Confirm { message, action } && message@
                    == "Discard changes to "@ + e.path@ + "? This cannot be undone."@
                    && action == (PendingAction::DiscardChanges { path: e.path })
            },
            _ => {
                &&& n == (App { status_message: n.status_message, ..o })
                &&& n.status_message matches Some(m) && m@
                    == "Can only discard unstaged changes"@
            },
        },
        None => n == o,
    })
}

/// Ask the terminal to run `git fetch --all`.
pub open spec fn git_fetch_post(o: App, n: App) -> bool {
    &&& (n == (App { pending_terminal_cmd: n.pending_terminal_cmd, ..o }))
    &&& (n.pending_terminal_cmd matches Some(c) && c.program@ == "git"@
        && c.args.deep_view() == seq!["fetch"@, "--all"@] && c.workdir == o.workdir
        && c.success_msg@ == "Fetched successfully"@)
}

/// Check out the selected branch; with changes in the work tree, ask
/// first whether to stash or discard them.
pub open spec fn checkout_branch_post(o: App, n: App, c: Command) -> bool {
    &&& (match o.overlay {
        Overlay::BranchList { entries, selected, .. } => if selected < entries.len() {
            let name = checkout_name(entries[selected as int].name@, entries[selected as int].is_remote);
            if o.file_entries.len() > 0 {
                &&& c is Nothing
                &&& n.overlay matches Overlay::DirtyCheckout { branch, has_conflicts }
                    && branch@ == name && has_conflicts == (exists|i: int|
                    0 <= i < o.file_entries.len() && (#[trigger] o.file_entries[i]).status == FileStatus::Conflict)
                &&& n == (App { overlay: n.overlay, ..o })
            } else {
                &&& c matches Command::Checkout { name: nm, force } && nm@ == name && !force
                &&& n == (App { overlay: Overlay::Closed, ..o })
            }
        } else {
            c is Nothing && n == o
        },
        _ => c is Nothing && n == o,
    })
}

/// Start typing a new branch name.
pub open spec fn start_create_branch_post(o: App, n: App) -> bool {
    &&& (n == (App {
        overlay: match o.overlay {
            Overlay::BranchList { entries, selected, .. } => Overlay::BranchList {
                entries,
                selected,
                creating: n.overlay->creating,
            },
            _ => o.overlay,
        },
        ..o
    }))
    &&& (o.overlay is BranchList ==> (n.overlay matches Overlay::BranchList {
        creating: Some(n),
        ..
    } && n@ == Seq::<char>::empty()))
}

/// Create and switch to the typed branch name (refused when empty).
pub open spec fn confirm_create_branch_post(o: App, n: App, c: Command) -> bool {
    &&& (match o.overlay {
        Overlay::BranchList { creating: Some(name), .. } => if name@.len() == 0 {
            &&& c is Nothing
            &&& n.status_message matches Some(m) && m@
                == "Branch name cannot be empty"@
            &&& n == (App { status_message: n.status_message, ..o })
        } else {
            &&& c matches Command::CreateBranch { name: nm } && nm == name
            &&& n == (App { overlay: Overlay::Closed, ..o })
        },
        _ => c is Nothing && n == o,
    })
}

/// Pop the selected stash (the popup closes).
pub open spec fn stash_pop_post(o: App, n: App, c: Command) -> bool {
    &&& (match o.overlay {
        Overlay::StashList { entries, selected } => if selected < entries.len() {
            &&& c == (Command::StashPop { index: entries[selected as int].index, sel: selected })
            &&& n == (App { overlay: Overlay::Closed, ..o })
        } else {
            c is Nothing && n == o
        },
        _ => c is Nothing && n == o,
    })
}

/// Apply the selected stash (the popup stays open).
pub open spec fn stash_apply_post(o: App, n: App, c: Command) -> bool {
    &&& (n == o)
    &&& (match o.overlay {
        Overlay::StashList { entries, selected } => if selected < entries.len() {
            c == (Command::StashApply { index: entries[selected as int].index, sel: selected })
        } else {
            c is Nothing
        },
        _ => c is Nothing,
    })
}

/// Drop the selected stash (the popup closes).
pub open spec fn stash_drop_post(o: App, n: App, c: Command) -> bool {
    &&& (match o.overlay {
        Overlay::StashList { entries, selected } => if selected < entries.len() {
            &&& c == (Command::StashDrop { index: entries[selected as int].index, sel: selected })
            &&& n == (App { overlay: Overlay::Closed, ..o })
        } else {
            c is Nothing && n == o
        },
        _ => c is Nothing && n == o,
    })
}

/// Ask before amending the last commit.
pub open spec fn open_commit_amend_post(o: App, n: App) -> bool {
    &&& (n == (App { overlay: n.overlay, ..o }))
    &&& (n.overlay matches Overlay::Confirm { message, action } && message@
        == "Amend the last commit? This will rewrite history."@ && action is CommitAmend)
}

/// Ask before undoing the last commit.
pub open spec fn undo_last_commit_post(o: App, n: App) -> bool {
    &&& (n == (App { overlay: n.overlay, ..o }))
    &&& (n.overlay matches Overlay::Confirm { message, action } && message@
        == "Undo the last commit? Changes will be unstaged."@ && action is UndoLastCommit)
}

/// Carry out what the confirmation asked.
pub open spec fn confirm_action_post(o: App, n: App, c: Command) -> bool {
    &&& (match o.overlay {
        Overlay::Confirm { action, .. } => {
            &&& n == (App { overlay: Overlay::Closed, ..o })
            &&& c == match action {
                PendingAction::CommitAmend => Command::LoadLastMessage,
                PendingAction::UndoLastCommit => Command::UndoCommit,
                PendingAction::DiscardChanges { path } => Command::DiscardFile { path },
                PendingAction::StageEntireFile { path } => Command::StageFile { path },
            }
        },
        _ => c is Nothing && n == o,
    })
}

/// Stash the changes, then switch branch.
pub open spec fn dirty_checkout_stash_post(o: App, n: App, c: Command) -> bool {
    &&& (match o.overlay {
        Overlay::DirtyCheckout { branch, .. } => {
            &&& n == (App { overlay: Overlay::Closed, ..o })
            &&& c == (Command::StashThenCheckout { branch })
        },
        _ => c is Nothing && n == o,
    })
}

/// Discard the changes and switch branch.
pub open spec fn dirty_checkout_discard_post(o: App, n: App, c: Command) -> bool {
    &&& (match o.overlay {
        Overlay::DirtyCheckout { branch, .. } => {
            &&& n == (App { overlay: Overlay::Closed, ..o })
            &&& c == (Command::Checkout { name: branch, force: true })
        },
        _ => c is Nothing && n == o,
    })
}

/// Start an interactive rebase onto the selected commit: the newer
/// commits, oldest first, each picked.
pub open spec fn start_rebase_post(o: App, n: App) -> bool {
    &&& (match o.overlay {
        Overlay::GitLog { entries, selected, .. } => if selected == 0 {
            &&& n.status_message matches Some(m) && m@
                == "Select a base commit (not the first one)"@
            &&& n == (App { status_message: n.status_message, ..o })
        } else {
            &&& n.overlay matches Overlay::Rebase { entries: re, selected: s, base_hash }
                && s == 0 && base_hash == entries[selected as int].hash && rebase_models(re@)
                == rebase_list_models(entries@, selected as int)
            &&& n == (App { overlay: n.overlay, ..o })
        },
        _ => n == o,
    })
}

/// Cycle the selected entry's action.
pub open spec fn rebase_cycle_action_post(o: App, n: App) -> bool {
    &&& (n == (App {
        overlay: match o.overlay {
            Overlay::Rebase { entries, selected, base_hash } => Overlay::Rebase {
                entries: n.overlay->Rebase_entries,
                selected,
                base_hash,
            },
            _ => o.overlay,
        },
        ..o
    }))
    &&& (o.overlay matches Overlay::Rebase { entries, selected, .. } ==> n.overlay->Rebase_entries@
        == entries@.update(
        selected as int,
        (RebaseEntry { action: cycled(entries@[selected as int].action), ..entries@[selected as int] }),
    ))
}

/// Move the selected entry one place up.
pub open spec fn rebase_move_up_post(o: App, n: App) -> bool {
    &&& (n == (App {
        overlay: match o.overlay {
            Overlay::Rebase { base_hash, .. } => Overlay::Rebase {
                entries: n.overlay->Rebase_entries,
                selected: n.overlay->Rebase_selected,
                base_hash,
            },
            _ => o.overlay,
        },
        ..o
    }))
    &&& (o.overlay matches Overlay::Rebase { entries, selected, .. } ==> (n.overlay->Rebase_entries@, n.overlay->Rebase_selected)
        == rebase_up(entries@, selected))
}

/// Move the selected entry one place down.
pub open spec fn rebase_move_down_post(o: App, n: App) -> bool {
    &&& (n == (App {
        overlay: match o.overlay {
            Overlay::Rebase { base_hash, .. } => Overlay::Rebase {
                entries: n.overlay->Rebase_entries,
                selected: n.overlay->Rebase_selected,
                base_hash,
            },
            _ => o.overlay,
        },
        ..o
    }))
    &&& (o.overlay matches Overlay::Rebase { entries, selected, .. } ==> (n.overlay->Rebase_entries@, n.overlay->Rebase_selected)
        == rebase_down(entries@, selected))
}

/// Run the rebase with the edited list (the popup closes).
pub open spec fn rebase_execute_post(o: App, n: App, c: Command) -> bool {
    &&& (match o.overlay {
        Overlay::Rebase { entries, base_hash, .. } => {
            &&& c matches Command::RunRebase { todo, base } && todo@ == todo_text(entries@)
                && base == base_hash
            &&& n == (App { overlay: Overlay::Closed, ..o })
        },
        _ => c is Nothing && n == o,
    })
}

/// Open the diff of the selected commit.
pub open spec fn view_commit_detail_post(o: App, n: App, c: Command) -> bool {
    &&& (n == o)
    &&& (match o.overlay {
        Overlay::GitLog { entries, selected, .. } => if selected < entries.len() {
            c == (Command::LoadCommitDetail {
                hash: entries[selected as int].hash,
                message: entries[selected as int].message,
                index: selected,
            })
        } else {
            c is Nothing
        },
        _ => c is Nothing,
    })
}

/// Show the diff of the next (or previous) commit of the log.
pub open spec fn navigate_commit_detail_post(o: App, n: App, c: Command, forward: bool) -> bool {
    &&& (n == o)
    &&& (match o.overlay {
        Overlay::CommitDetail { log_entries, log_selected, .. } => {
            let moves = if forward {
                log_selected + 1 < log_entries.len()
            } else {
                log_selected > 0
            };
            let k = if forward {
                log_selected + 1
            } else {
                log_selected - 1
            };
            if moves {
                c == (Command::LoadCommitDetail {
                    hash: log_entries[k].hash,
                    message: log_entries[k].message,
                    index: k as usize,
                })
            } else {
                c is Nothing
            }
        },
        _ => c is Nothing,
    })
}

/// The previous hunk of the commit's diff.
pub open spec fn prev_hunk_commit_detail_post(o: App, n: App) -> bool {
    &&& (n == (App {
        overlay: match o.overlay {
            Overlay::CommitDetail {
                hash,
                message,
                left_lines,
                right_lines,
                hunks,
                current_hunk,
                file_extensions,
                scroll,
                viewport_height,
                log_entries,
                log_selected,
            } => if hunks.len() > 0 && current_hunk > 0 {
                Overlay::CommitDetail {
                    hash,
                    message,
                    left_lines,
                    right_lines,
                    hunks,
                    current_hunk: (current_hunk - 1) as usize,
                    file_extensions,
                    scroll: focus_scroll(hunks@[current_hunk - 1].display_start, viewport_height),
                    viewport_height,
                    log_entries,
                    log_selected,
                }
            } else {
                o.overlay
            },
            _ => o.overlay,
        },
        ..o
    }))
}

/// The next hunk of the commit's diff.
pub open spec fn next_hunk_commit_detail_post(o: App, n: App) -> bool {
    &&& (n == (App {
        overlay: match o.overlay {
            Overlay::CommitDetail {
                hash,
                message,
                left_lines,
                right_lines,
                hunks,
                current_hunk,
                file_extensions,
                scroll,
                viewport_height,
                log_entries,
                log_selected,
            } => if hunks.len() > 0 && current_hunk + 1 < hunks.len() {
                Overlay::CommitDetail {
                    hash,
                    message,
                    left_lines,
                    right_lines,
                    hunks,
                    current_hunk: (current_hunk + 1) as usize,
                    file_extensions,
                    scroll: focus_scroll(hunks@[current_hunk + 1].display_start, viewport_height),
                    viewport_height,
                    log_entries,
                    log_selected,
                }
            } else {
                o.overlay
            },
            _ => o.overlay,
        },
        ..o
    }))
}

impl App {
    /// Close the popup, or quit when none is open.
    pub fn handle_quit(&mut self)
        ensures
            quit_post(*old(self), *final(self)),
    {
        if self.overlay.is_active() {
            self.overlay = Overlay::Closed;
        } else {
            self.should_quit = true;
        }
    }

    /// Close the popup; closing a commit's diff goes back to the log.
    pub fn handle_close_overlay(&mut self)
        ensures
            close_overlay_post(*old(self), *final(self)),
    {
        let mut o = Overlay::Closed;
        std::mem::swap(&mut o, &mut self.overlay);
        if let Overlay::CommitDetail { log_entries, log_selected, .. } = o {
            self.overlay = Overlay::GitLog { entries: log_entries, selected: log_selected, scroll: 0 };
        }
    }

    /// Resolve the current conflict section with `resolution`.
    pub fn handle_conflict_pick(&mut self, resolution: ConflictResolution)
        requires
            old(self).conflict_state matches Some(cs) ==> cs.wf(),
        ensures
            conflict_pick_post(*old(self), *final(self), resolution),
    {
        let mut label: Option<String> = None;
        if let Some(cs) = &mut self.conflict_state {
            label = Some(cs.pick(resolution));
        }
        if let Some(l) = label {
            self.status_message = Some(concat2("Picked: ", l.as_str()));
        }
    }

    /// Ask before discarding the selected file's changes (unstaged or
    /// conflicted files only).
    pub fn handle_discard_changes(&mut self)
        ensures
            discard_changes_post(*old(self), *final(self)),
    {
        if let Some(entry) = self.selected_file_entry() {
            let path = entry.path.clone();
            match entry.status {
                FileStatus::Unstaged(_) | FileStatus::Conflict => {
                    let message = concat3(
                        "Discard changes to ",
                        path.as_str(),
                        "? This cannot be undone.",
                    );
                    self.overlay = Overlay::Confirm {
                        message,
                        action: PendingAction::DiscardChanges { path },
                    };
                },
                _ => {
                    self.status_message = Some(String::from_str("Can only discard unstaged changes"));
                },
            }
        }
    }

    /// Ask the terminal to run `git fetch --all`.
    pub fn handle_git_fetch(&mut self)
        ensures
            git_fetch_post(*old(self), *final(self)),
    {
        let mut args: Vec<String> = Vec::new();
        args.push(String::from_str("fetch"));
        args.push(String::from_str("--all"));
        assert(args.deep_view() =~= seq!["fetch"@, "--all"@]);
        self.pending_terminal_cmd = Some(
            TerminalCmd {
                program: String::from_str("git"),
                args,
                workdir: self.workdir.clone(),
                success_msg: String::from_str("Fetched successfully"),
            },
        );
    }

    /// Check out the selected branch; with changes in the work tree, ask
    /// first whether to stash or discard them.
    pub fn handle_checkout_branch(&mut self) -> (c: Command)
        ensures
            checkout_branch_post(*old(self), *final(self), c),
    {
        let mut target: Option<String> = None;
        if let Overlay::BranchList { entries, selected, .. } = &self.overlay {
            if *selected < entries.len() {
                target = Some(entries[*selected].checkout_target());
            }
        }
        match target {
            Some(name) => {
                if self.file_entries.len() > 0 {
                    let mut has_conflicts = false;
                    let mut i: usize = 0;
                    while i < self.file_entries.len()
                        invariant
                            i <= self.file_entries.len(),
                            has_conflicts == (exists|j: int|
                                0 <= j < i && (#[trigger] self.file_entries[j]).status
                                    == FileStatus::Conflict),
                        decreases self.file_entries.len() - i,
                    {
                        if self.file_entries[i].status == FileStatus::Conflict {
                            has_conflicts = true;
                        }
                        i = i + 1;
                    }
                    self.overlay = Overlay::DirtyCheckout { branch: name, has_conflicts };
                    Command::Nothing
                } else {
                    self.overlay = Overlay::Closed;
                    Command::Checkout { name, force: false }
                }
            },
            None => Command::Nothing,
        }
    }

    /// Start typing a new branch name.
    pub fn handle_start_create_branch(&mut self)
        ensures
            start_create_branch_post(*old(self), *final(self)),
    {
        if let Overlay::BranchList { creating, .. } = &mut self.overlay {
            *creating = Some(String::new());
        }
    }

    /// Create and switch to the typed branch name (refused when empty).
    pub fn handle_confirm_create_branch(&mut self) -> (c: Command)
        ensures
            confirm_create_branch_post(*old(self), *final(self), c),
    {
        let mut typed: Option<String> = None;
        if let Overlay::BranchList { creating: Some(name), .. } = &self.overlay {
            typed = Some(name.clone());
        }
        match typed {
            Some(name) => {
                if name.as_str().unicode_len() == 0 {
                    self.status_message = Some(String::from_str("Branch name cannot be empty"));
                    Command::Nothing
                } else {
                    self.overlay = Overlay::Closed;
                    Command::CreateBranch { name }
                }
            },
            None => Command::Nothing,
        }
    }
}


impl App {
    /// Pop the selected stash (the popup closes).
    pub fn handle_stash_pop(&mut self) -> (c: Command)
        ensures
            stash_pop_post(*old(self), *final(self), c),
    {
        let mut pick: Option<(usize, usize)> = None;
        if let Overlay::StashList { entries, selected } = &self.overlay {
            if *selected < entries.len() {
                pick = Some((entries[*selected].index, *selected));
            }
        }
        match pick {
            Some((index, sel)) => {
                self.overlay = Overlay::Closed;
                Command::StashPop { index, sel }
            },
            None => Command::Nothing,
        }
    }

    /// Apply the selected stash (the popup stays open).
    pub fn handle_stash_apply(&mut self) -> (c: Command)
        ensures
            stash_apply_post(*old(self), *final(self), c),
    {
        if let Overlay::StashList { entries, selected } = &self.overlay {
            if *selected < entries.len() {
                return Command::StashApply { index: entries[*selected].index, sel: *selected };
            }
        }
        Command::Nothing
    }

    /// Drop the selected stash (the popup closes).
    pub fn handle_stash_drop(&mut self) -> (c: Command)
        ensures
            stash_drop_post(*old(self), *final(self), c),
    {
        let mut pick: Option<(usize, usize)> = None;
        if let Overlay::StashList { entries, selected } = &self.overlay {
            if *selected < entries.len() {
                pick = Some((entries[*selected].index, *selected));
            }
        }
        match pick {
            Some((index, sel)) => {
                self.overlay = Overlay::Closed;
                Command::StashDrop { index, sel }
            },
            None => Command::Nothing,
        }
    }

    /// Ask before amending the last commit.
    pub fn handle_open_commit_amend(&mut self)
        ensures
            open_commit_amend_post(*old(self), *final(self)),
    {
        self.overlay = Overlay::Confirm {
            message: String::from_str("Amend the last commit? This will rewrite history."),
            action: PendingAction::CommitAmend,
        };
    }

    /// Ask before undoing the last commit.
    pub fn handle_undo_last_commit(&mut self)
        ensures
            undo_last_commit_post(*old(self), *final(self)),
    {
        self.overlay = Overlay::Confirm {
            message: String::from_str("Undo the last commit? Changes will be unstaged."),
            action: PendingAction::UndoLastCommit,
        };
    }

    /// Carry out what the confirmation asked.
    pub fn handle_confirm_action(&mut self) -> (c: Command)
        ensures
            confirm_action_post(*old(self), *final(self), c),
    {
        let mut o = Overlay::Closed;
        std::mem::swap(&mut o, &mut self.overlay);
        match o {
            Overlay::Confirm { action, .. } => match action {
                PendingAction::CommitAmend => Command::LoadLastMessage,
                PendingAction::UndoLastCommit => Command::UndoCommit,
                PendingAction::DiscardChanges { path } => Command::DiscardFile { path },
                PendingAction::StageEntireFile { path } => Command::StageFile { path },
            },
            other => {
                self.overlay = other;
                Command::Nothing
            },
        }
    }

    /// Stash the changes, then switch branch.
    pub fn handle_dirty_checkout_stash(&mut self) -> (c: Command)
        ensures
            dirty_checkout_stash_post(*old(self), *final(self), c),
    {
        let mut o = Overlay::Closed;
        std::mem::swap(&mut o, &mut self.overlay);
        match o {
            Overlay::DirtyCheckout { branch, .. } => Command::StashThenCheckout { branch },
            other => {
                self.overlay = other;
                Command::Nothing
            },
        }
    }

    /// Discard the changes and switch branch.
    pub fn handle_dirty_checkout_discard(&mut self) -> (c: Command)
        ensures
            dirty_checkout_discard_post(*old(self), *final(self), c),
    {
        let mut o = Overlay::Closed;
        std::mem::swap(&mut o, &mut self.overlay);
        match o {
            Overlay::DirtyCheckout { branch, .. } => Command::Checkout { name: branch, force: true },
            other => {
                self.overlay = other;
                Command::Nothing
            },
        }
    }

    /// Start an interactive rebase onto the selected commit: the newer
    /// commits, oldest first, each picked.
    pub fn handle_start_rebase(&mut self)
        requires
            overlay_wf(old(self).overlay),
        ensures
            start_rebase_post(*old(self), *final(self)),
    {
        let mut next: Option<Overlay> = None;
        let mut refuse = false;
        if let Overlay::GitLog { entries, selected, .. } = &self.overlay {
            if *selected == 0 {
                refuse = true;
            } else {
                let base_hash = entries[*selected].hash.clone();
                let list = rebase_list(entries, *selected);
                next = Some(Overlay::Rebase { entries: list, selected: 0, base_hash });
            }
        }
        if refuse {
            self.status_message = Some(String::from_str("Select a base commit (not the first one)"));
        }
        if let Some(o) = next {
            self.overlay = o;
        }
    }

    /// Cycle the selected entry's action.
    pub fn handle_rebase_cycle_action(&mut self)
        requires
            overlay_wf(old(self).overlay),
        ensures
            rebase_cycle_action_post(*old(self), *final(self)),
    {
        if let Overlay::Rebase { entries, selected, .. } = &mut self.overlay {
            let ghost before = entries@;
            let mut e = entries.remove(*selected);
            e.action = e.action.cycle();
            let ghost ne = e;
            entries.insert(*selected, e);
            assert(entries@ =~= before.update(*selected as int, ne));
        }
    }

    /// Move the selected entry one place up.
    pub fn handle_rebase_move_up(&mut self)
        requires
            overlay_wf(old(self).overlay),
        ensures
            rebase_move_up_post(*old(self), *final(self)),
    {
        if let Overlay::Rebase { entries, selected, .. } = &mut self.overlay {
            if *selected > 0 {
                let ghost before = entries@;
                let e = entries.remove(*selected);
                entries.insert(*selected - 1, e);
                assert(entries@ =~= swap_adj(before, *selected as int));
                *selected = *selected - 1;
            }
        }
    }

    /// Move the selected entry one place down.
    pub fn handle_rebase_move_down(&mut self)
        requires
            overlay_wf(old(self).overlay),
        ensures
            rebase_move_down_post(*old(self), *final(self)),
    {
        if let Overlay::Rebase { entries, selected, .. } = &mut self.overlay {
            if *selected < entries.len().saturating_sub(1) {
                let ghost before = entries@;
                let e = entries.remove(*selected);
                entries.insert(*selected + 1, e);
                assert(entries@ =~= swap_adj(before, *selected + 1));
                *selected = *selected + 1;
            }
        }
    }

    /// Run the rebase with the edited list (the popup closes).
    pub fn handle_rebase_execute(&mut self) -> (c: Command)
        ensures
            rebase_execute_post(*old(self), *final(self), c),
    {
        let mut o = Overlay::Closed;
        std::mem::swap(&mut o, &mut self.overlay);
        match o {
            Overlay::Rebase { entries, base_hash, .. } => {
                let todo = build_todo(&entries);
                Command::RunRebase { todo, base: base_hash }
            },
            other => {
                self.overlay = other;
                Command::Nothing
            },
        }
    }

    /// Open the diff of the selected commit.
    pub fn handle_view_commit_detail(&mut self) -> (c: Command)
        ensures
            view_commit_detail_post(*old(self), *final(self), c),
    {
        if let Overlay::GitLog { entries, selected, .. } = &self.overlay {
            if *selected < entries.len() {
                return Command::LoadCommitDetail {
                    hash: entries[*selected].hash.clone(),
                    message: entries[*selected].message.clone(),
                    index: *selected,
                };
            }
        }
        Command::Nothing
    }

    /// Show the diff of the next (or previous) commit of the log.
    pub fn handle_navigate_commit_detail(&mut self, forward: bool) -> (c: Command)
        requires
            overlay_wf(old(self).overlay),
        ensures
            navigate_commit_detail_post(*old(self), *final(self), c, forward),
    {
        if let Overlay::CommitDetail { log_entries, log_selected, .. } = &self.overlay {
            let k = if forward {
                if *log_selected + 1 >= log_entries.len() {
                    return Command::Nothing;
                }
                *log_selected + 1
            } else {
                if *log_selected == 0 {
                    return Command::Nothing;
                }
                *log_selected - 1
            };
            return Command::LoadCommitDetail {
                hash: log_entries[k].hash.clone(),
                message: log_entries[k].message.clone(),
                index: k,
            };
        }
        Command::Nothing
    }

    /// The previous hunk of the commit's diff.
    pub fn handle_prev_hunk_commit_detail(&mut self)
        requires
            overlay_wf(old(self).overlay),
        ensures
            prev_hunk_commit_detail_post(*old(self), *final(self)),
    {
        if let Overlay::CommitDetail { hunks, current_hunk, scroll, viewport_height, .. } = &mut self.overlay {
            if hunks.len() > 0 && *current_hunk > 0 {
                *current_hunk = *current_hunk - 1;
                *scroll = hunks[*current_hunk].display_start.saturating_sub(*viewport_height / 3);
            }
        }
    }

    /// The next hunk of the commit's diff.
    pub fn handle_next_hunk_commit_detail(&mut self)
        ensures
            next_hunk_commit_detail_post(*old(self), *final(self)),
    {
        if let Overlay::CommitDetail { hunks, current_hunk, scroll, viewport_height, .. } = &mut self.overlay {
            if hunks.len() > 0 && *current_hunk < hunks.len() - 1 {
                *current_hunk = *current_hunk + 1;
                *scroll = hunks[*current_hunk].display_start.saturating_sub(*viewport_height / 3);
            }
        }
    }
}

/// Law: starting a rebase on the commit at `selected` in the log (newest
/// first) lists exactly the commits newer than it, oldest first, each
/// picked: entry `i` is the log's entry `selected - 1 - i`, so the first
/// entry is the commit just after the base, each entry is newer than the
/// one before, and running the list unedited replays the history as it is.
pub proof fn law_rebase_list_oldest_first(o: App, n: App)
    requires
        start_rebase_post(o, n),
        o.overlay matches Overlay::GitLog { selected, .. } && selected > 0,
    ensures
        ({
            let log = o.overlay->GitLog_entries@;
            let sel = o.overlay->GitLog_selected as int;
            &&& n.overlay is Rebase
            &&& n.overlay->Rebase_base_hash == log[sel].hash
            &&& n.overlay->Rebase_entries@.len() == sel
            &&& forall|i: int|
                0 <= i < sel ==> {
                    let e = #[trigger] n.overlay->Rebase_entries@[i];
                    &&& e.hash@ == log[sel - 1 - i].hash@
                    &&& e.message@ == log[sel - 1 - i].message@
                    &&& e.action == RebaseAction::Pick
                }
            &&& forall|i: int, j: int|
                0 <= i < j < sel ==> n.overlay->Rebase_entries@[i].hash@ == log[sel - 1 - i].hash@
                    && n.overlay->Rebase_entries@[j].hash@ == log[sel - 1 - j].hash@ && sel - 1 - j < sel - 1 - i
        }),
{
    let log = o.overlay->GitLog_entries@;
    let sel = o.overlay->GitLog_selected as int;
    let re = n.overlay->Rebase_entries@;
    assert(rebase_models(re) == rebase_list_models(log, sel));
    assert forall|i: int| 0 <= i < sel implies re[i].hash@ == log[sel - 1 - i].hash@ && re[i].message@ == log[sel
        - 1 - i].message@ && re[i].action == RebaseAction::Pick by {
        assert(rebase_models(re)[i] == rebase_list_models(log, sel)[i]);
    }
}

} // verus!
