//! The command popup: which commands the current context offers, under
//! which keys.
use vstd::prelude::*;

use crate::app::{App, DiffViewMode, Message, Panel, WhichKeyEntry};
use crate::status::{FileEntry, FileStatus};

verus! {

/// A popup line as plain values: key, label, message.
pub type KeyEntry = (char, Seq<char>, Message);

pub open spec fn entry_models(v: Seq<WhichKeyEntry>) -> Seq<KeyEntry> {
    v.map_values(|e: WhichKeyEntry| (e.key, e.label@, e.message))
}

fn push_entry(v: &mut Vec<WhichKeyEntry>, key: char, label: &'static str, message: Message)
    ensures
        entry_models(final(v)@) == entry_models(old(v)@).push((key, label@, message)),
{
    v.push(WhichKeyEntry { key, label, message });
    assert(entry_models(v@) =~= entry_models(old(v)@).push((key, label@, message)));
}

pub open spec fn repo_keys() -> Seq<KeyEntry> {
    seq![
        ('c', "commit"@, Message::OpenCommit),
        ('C', "amend"@, Message::OpenCommitAmend),
        ('z', "undo commit"@, Message::UndoLastCommit),
        ('l', "log"@, Message::OpenGitLog),
        ('f', "fetch"@, Message::GitFetch),
        ('b', "branches"@, Message::OpenBranchList),
        ('B', "blame"@, Message::ToggleBlame),
        ('S', "stash"@, Message::StashSave),
        ('w', "stash list"@, Message::OpenStashList),
        ('r', "refresh"@, Message::Refresh)
    ]
}

pub open spec fn rebase_keys() -> Seq<KeyEntry> {
    seq![
        ('R', "rebase continue"@, Message::RebaseContinue),
        ('A', "rebase abort"@, Message::RebaseAbort)
    ]
}

pub open spec fn unstage_keys() -> Seq<KeyEntry> {
    seq![
        ('u', "unstage"@, Message::UnstageFile)
    ]
}

pub open spec fn change_keys() -> Seq<KeyEntry> {
    seq![
        ('s', "stage"@, Message::StageFile),
        ('d', "discard"@, Message::DiscardChanges)
    ]
}

pub open spec fn yank_name_keys() -> Seq<KeyEntry> {
    seq![
        ('y', "yank name"@, Message::YankToClipboard)
    ]
}

pub open spec fn conflict_keys() -> Seq<KeyEntry> {
    seq![
        ('o', "pick ours"@, Message::ConflictPickOurs),
        ('t', "pick theirs"@, Message::ConflictPickTheirs),
        ('b', "pick both"@, Message::ConflictPickBoth),
        ('s', "save & stage"@, Message::ConflictSave),
        ('r', "refresh"@, Message::Refresh)
    ]
}

pub open spec fn hunk_keys() -> Seq<KeyEntry> {
    seq![
        ('s', "stage hunk"@, Message::StageHunk),
        ('i', "edit"@, Message::EnterEditMode),
        ('B', "blame"@, Message::ToggleBlame),
        ('y', "yank hunk"@, Message::YankToClipboard),
        ('r', "refresh"@, Message::Refresh)
    ]
}

fn add_repo_keys(v: &mut Vec<WhichKeyEntry>)
    ensures
        entry_models(final(v)@) == entry_models(old(v)@) + repo_keys(),
{
    let ghost start = entry_models(v@);
    push_entry(v, 'c', "commit", Message::OpenCommit);
    push_entry(v, 'C', "amend", Message::OpenCommitAmend);
    push_entry(v, 'z', "undo commit", Message::UndoLastCommit);
    push_entry(v, 'l', "log", Message::OpenGitLog);
    push_entry(v, 'f', "fetch", Message::GitFetch);
    push_entry(v, 'b', "branches", Message::OpenBranchList);
    push_entry(v, 'B', "blame", Message::ToggleBlame);
    push_entry(v, 'S', "stash", Message::StashSave);
    push_entry(v, 'w', "stash list", Message::OpenStashList);
    push_entry(v, 'r', "refresh", Message::Refresh);
    assert(entry_models(v@) =~= start + repo_keys());
}

fn add_rebase_keys(v: &mut Vec<WhichKeyEntry>)
    ensures
        entry_models(final(v)@) == entry_models(old(v)@) + rebase_keys(),
{
    let ghost start = entry_models(v@);
    push_entry(v, 'R', "rebase continue", Message::RebaseContinue);
    push_entry(v, 'A', "rebase abort", Message::RebaseAbort);
    assert(entry_models(v@) =~= start + rebase_keys());
}

fn add_unstage_keys(v: &mut Vec<WhichKeyEntry>)
    ensures
        entry_models(final(v)@) == entry_models(old(v)@) + unstage_keys(),
{
    let ghost start = entry_models(v@);
    push_entry(v, 'u', "unstage", Message::UnstageFile);
    assert(entry_models(v@) =~= start + unstage_keys());
}

fn add_change_keys(v: &mut Vec<WhichKeyEntry>)
    ensures
        entry_models(final(v)@) == entry_models(old(v)@) + change_keys(),
{
    let ghost start = entry_models(v@);
    push_entry(v, 's', "stage", Message::StageFile);
    push_entry(v, 'd', "discard", Message::DiscardChanges);
    assert(entry_models(v@) =~= start + change_keys());
}

fn add_yank_name_keys(v: &mut Vec<WhichKeyEntry>)
    ensures
        entry_models(final(v)@) == entry_models(old(v)@) + yank_name_keys(),
{
    let ghost start = entry_models(v@);
    push_entry(v, 'y', "yank name", Message::YankToClipboard);
    assert(entry_models(v@) =~= start + yank_name_keys());
}

fn add_conflict_keys(v: &mut Vec<WhichKeyEntry>)
    ensures
        entry_models(final(v)@) == entry_models(old(v)@) + conflict_keys(),
{
    let ghost start = entry_models(v@);
    push_entry(v, 'o', "pick ours", Message::ConflictPickOurs);
    push_entry(v, 't', "pick theirs", Message::ConflictPickTheirs);
    push_entry(v, 'b', "pick both", Message::ConflictPickBoth);
    push_entry(v, 's', "save & stage", Message::ConflictSave);
    push_entry(v, 'r', "refresh", Message::Refresh);
    assert(entry_models(v@) =~= start + conflict_keys());
}

fn add_hunk_keys(v: &mut Vec<WhichKeyEntry>)
    ensures
        entry_models(final(v)@) == entry_models(old(v)@) + hunk_keys(),
{
    let ghost start = entry_models(v@);
    push_entry(v, 's', "stage hunk", Message::StageHunk);
    push_entry(v, 'i', "edit", Message::EnterEditMode);
    push_entry(v, 'B', "blame", Message::ToggleBlame);
    push_entry(v, 'y', "yank hunk", Message::YankToClipboard);
    push_entry(v, 'r', "refresh", Message::Refresh);
    assert(entry_models(v@) =~= start + hunk_keys());
}

pub open spec fn line_keys(is_staged: bool) -> Seq<KeyEntry> {
    seq![
        ('a', "toggle all"@, Message::SelectAllLines),
        ('s', if is_staged {
            "unstage selected"@
        } else {
            "stage selected"@
        }, Message::StageLines),
        ('i', "edit"@, Message::EnterEditMode),
        ('y', "yank lines"@, Message::YankToClipboard),
        ('r', "refresh"@, Message::Refresh),
    ]
}

fn add_line_keys(v: &mut Vec<WhichKeyEntry>, is_staged: bool)
    ensures
        entry_models(final(v)@) == entry_models(old(v)@) + line_keys(is_staged),
{
    let ghost start = entry_models(v@);
    push_entry(v, 'a', "toggle all", Message::SelectAllLines);
    push_entry(
        v,
        's',
        if is_staged {
            "unstage selected"
        } else {
            "stage selected"
        },
        Message::StageLines,
    );
    push_entry(v, 'i', "edit", Message::EnterEditMode);
    push_entry(v, 'y', "yank lines", Message::YankToClipboard);
    push_entry(v, 'r', "refresh", Message::Refresh);
    assert(entry_models(v@) =~= start + line_keys(is_staged));
}

/// The commands for one file of the list, by its status.
pub open spec fn file_keys(status: FileStatus) -> Seq<KeyEntry> {
    (match status {
        FileStatus::Staged(_) => unstage_keys(),
        FileStatus::Conflict => Seq::empty(),
        _ => change_keys(),
    }) + yank_name_keys()
}

/// The file entry under the cursor, none while the header is selected.
pub open spec fn selected_entry(app: App) -> Option<FileEntry> {
    if app.header_selected || app.selected_index >= app.file_entries.len() {
        None
    } else {
        Some(app.file_entries[app.selected_index as int])
    }
}

pub open spec fn in_line_mode(app: App) -> bool {
    match app.diff_state {
        Some(ds) => ds.view_mode == DiffViewMode::LineNav,
        None => false,
    }
}

pub open spec fn diff_is_staged(app: App) -> bool {
    match app.diff_state {
        Some(ds) => ds.is_staged,
        None => false,
    }
}

/// The popup's lines: the commands of the context, then the theme switch.
pub open spec fn which_key_spec(app: App, rebasing: bool) -> Seq<KeyEntry> {
    let extra = if rebasing {
        rebase_keys()
    } else {
        Seq::empty()
    };
    let body = if app.active_panel == Panel::FileList {
        if app.header_selected {
            repo_keys() + extra
        } else {
            match selected_entry(app) {
                Some(e) => file_keys(e.status),
                None => Seq::empty(),
            }
        }
    } else if app.conflict_state is Some {
        conflict_keys() + extra
    } else if !in_line_mode(app) {
        hunk_keys()
    } else {
        line_keys(diff_is_staged(app))
    };
    body.push(('T', "next theme"@, Message::CycleTheme))
}

impl App {
    /// The file entry under the cursor; none while the header is selected.
    pub fn selected_file_entry(&self) -> (e: Option<&FileEntry>)
        ensures
            match e {
                Some(x) => selected_entry(*self) == Some(*x),
                None => selected_entry(*self) is None,
            },
    {
        if self.header_selected || self.selected_index >= self.file_entries.len() {
            None
        } else {
            Some(&self.file_entries[self.selected_index])
        }
    }

    /// The commands the popup offers in the current context; `rebasing`
    /// tells whether a rebase is in progress.
    pub fn build_which_key_entries(&self, rebasing: bool) -> (v: Vec<WhichKeyEntry>)
        ensures
            entry_models(v@) == which_key_spec(*self, rebasing),
    {
        let in_line = match &self.diff_state {
            Some(ds) => ds.view_mode == DiffViewMode::LineNav,
            None => false,
        };
        let mut v: Vec<WhichKeyEntry> = Vec::new();
        let ghost empty = entry_models(v@);
        assert(empty =~= Seq::<KeyEntry>::empty());
        if self.active_panel == Panel::FileList {
            if self.header_selected {
                add_repo_keys(&mut v);
                if rebasing {
                    add_rebase_keys(&mut v);
                }
            } else {
                match self.selected_file_entry() {
                    Some(e) => {
                        match e.status {
                            FileStatus::Staged(_) => add_unstage_keys(&mut v),
                            FileStatus::Conflict => {},
                            _ => add_change_keys(&mut v),
                        }
                        add_yank_name_keys(&mut v);
                    },
                    None => {},
                }
            }
        } else if self.conflict_state.is_some() {
            add_conflict_keys(&mut v);
            if rebasing {
                add_rebase_keys(&mut v);
            }
        } else if !in_line {
            add_hunk_keys(&mut v);
        } else {
            let is_staged = match &self.diff_state {
                Some(ds) => ds.is_staged,
                None => false,
            };
            add_line_keys(&mut v, is_staged);
        }
        let ghost body = entry_models(v@);
        push_entry(&mut v, 'T', "next theme", Message::CycleTheme);
        v
    }
}

} // verus!
