//! The state of the user interface and the decisions it makes on each
//! message: which panel is active, where the cursor and the scroll stand,
//! which lines are selected, which popup is open.
use vstd::prelude::*;
use std::collections::BTreeSet;

use crate::conflict::ConflictState;
use crate::diff::{changed_rows_in_hunk, DiffLine, DiffLineKind, Hunk};
use crate::log::{BlameLine, BranchEntry, LogEntry, StashEntry};
use crate::status::FileEntry;
use crate::text_input::TextInput;
use crate::theme::Theme;

verus! {

broadcast use vstd::std_specs::btree::group_btree_axioms, vstd::laws_cmp::group_laws_cmp;

/// Files larger than this (1 MB) are diffed only on request.
pub const LARGE_FILE_THRESHOLD: u64 = 1_048_576;

/// Which half of the screen has the focus.
#[derive(Debug, Clone, Copy, PartialEq, Eq, Structural)]
pub enum Panel {
    FileList,
    DiffView,
}

/// Moving through a diff by hunks, or through the changed lines one by one.
#[derive(Debug, Clone, Copy, PartialEq, Eq, Structural)]
pub enum DiffViewMode {
    HunkNav,
    LineNav,
}

/// A request to open the editor on a file at a line.
pub struct EditorRequest {
    pub file_path: String,
    pub line_number: usize,
}

/// A command that needs the terminal (such as a fetch that may ask for a
/// password).
pub struct TerminalCmd {
    pub program: String,
    pub args: Vec<String>,
    pub workdir: String,
    pub success_msg: String,
}

/// The diff of the selected file and where the user stands in it.
pub struct DiffState {
    pub file_path: String,
    pub left_lines: Vec<DiffLine>,
    pub right_lines: Vec<DiffLine>,
    pub hunks: Vec<Hunk>,
    pub current_hunk: usize,
    pub scroll: usize,
    pub max_scroll: usize,
    pub old_content: String,
    pub new_content: String,
    pub view_mode: DiffViewMode,
    pub cursor_line: usize,
    pub selected_lines: BTreeSet<usize>,
    pub hunk_changed_rows: Vec<usize>,
    /// Remembered line selection from the last ExitLineMode (hunk_index, selection, cursor)
    pub saved_line_selection: Option<(usize, BTreeSet<usize>, usize)>,
    /// Last known viewport height (updated during render)
    pub viewport_height: usize,
    /// Whether this diff is for a staged file (HEAD vs index)
    pub is_staged: bool,
    /// Horizontal scroll offset (columns)
    pub h_scroll: usize,
}

/// What an action does to the interpreted rebase list.
#[derive(Debug, Clone, Copy, PartialEq, Eq, Structural)]
pub enum RebaseAction {
    Pick,
    Squash,
    Drop,
}

/// One commit of an interactive rebase.
#[derive(Debug, Clone)]
pub struct RebaseEntry {
    pub hash: String,
    pub message: String,
    pub action: RebaseAction,
}

/// What a confirmation popup asks before doing.
#[derive(Debug, Clone)]
pub enum PendingAction {
    CommitAmend,
    UndoLastCommit,
    DiscardChanges { path: String },
    StageEntireFile { path: String },
}

/// The popup shown over the panels, if any.
pub enum Overlay {
    Closed,
    Confirm { message: String, action: PendingAction },
    CommitInput { input: TextInput, amend: bool },
    GitLog { entries: Vec<LogEntry>, selected: usize, scroll: usize },
    StashList { entries: Vec<StashEntry>, selected: usize },
    BranchList { entries: Vec<BranchEntry>, selected: usize, creating: Option<String> },
    CommitDetail {
        hash: String,
        message: String,
        left_lines: Vec<DiffLine>,
        right_lines: Vec<DiffLine>,
        hunks: Vec<Hunk>,
        current_hunk: usize,
        file_extensions: Vec<Option<String>>,
        scroll: usize,
        viewport_height: usize,
        log_entries: Vec<LogEntry>,
        log_selected: usize,
    },
    Rebase { entries: Vec<RebaseEntry>, selected: usize, base_hash: String },
    DirtyCheckout { branch: String, has_conflicts: bool },
}

/// Everything the user can ask for.
#[derive(Debug, Clone, Copy, PartialEq, Eq, Structural)]
pub enum Message {
    MoveUp,
    MoveDown,
    ScrollLeft,
    ScrollRight,
    PrevHunk,
    NextHunk,
    SwitchPanel,
    StageFile,
    StageHunk,
    UnstageFile,
    DiscardChanges,
    Refresh,
    AutoRefresh,
    EnterLineMode,
    ExitLineMode,
    ToggleBlame,
    EnterEditMode,
    ConflictPickOurs,
    ConflictPickTheirs,
    ConflictPickBoth,
    ConflictSave,
    ToggleLine,
    StageLines,
    SelectAllLines,
    YankToClipboard,
    StartFilter,
    ClearFilter,
    StashSave,
    OpenStashList,
    StashPop,
    StashApply,
    StashDrop,
    GitFetch,
    OpenBranchList,
    CheckoutBranch,
    StartCreateBranch,
    ConfirmCreateBranch,
    OpenCommit,
    OpenCommitAmend,
    UndoLastCommit,
    OpenGitLog,
    ViewCommitDetail,
    PrevCommitDetail,
    NextCommitDetail,
    PrevHunkCommitDetail,
    NextHunkCommitDetail,
    StartRebase,
    RebaseCycleAction,
    RebaseMoveUp,
    RebaseMoveDown,
    RebaseExecute,
    RebaseContinue,
    RebaseAbort,
    OpenWhichKey,
    CycleTheme,
    CloseConflict,
    CloseOverlay,
    ConfirmCommit,
    ConfirmAction,
    DirtyCheckoutStash,
    DirtyCheckoutDiscard,
    Quit,
}

/// One line of the command popup: a key, what it does, and the message it sends.
#[derive(Clone)]
pub struct WhichKeyEntry {
    pub key: char,
    pub label: &'static str,
    pub message: Message,
}

impl RebaseAction {
    /// pick, then squash, then drop, then pick again.
    pub fn cycle(self) -> (r: Self)
        ensures
            r == match self {
                RebaseAction::Pick => RebaseAction::Squash,
                RebaseAction::Squash => RebaseAction::Drop,
                RebaseAction::Drop => RebaseAction::Pick,
            },
    {
        match self {
            RebaseAction::Pick => RebaseAction::Squash,
            RebaseAction::Squash => RebaseAction::Drop,
            RebaseAction::Drop => RebaseAction::Pick,
        }
    }

    /// The word git's rebase list uses for the action.
    pub fn label(self) -> (s: &'static str)
        ensures
            s@ == match self {
                RebaseAction::Pick => "pick"@,
                RebaseAction::Squash => "squash"@,
                RebaseAction::Drop => "drop"@,
            },
    {
        match self {
            RebaseAction::Pick => "pick",
            RebaseAction::Squash => "squash",
            RebaseAction::Drop => "drop",
        }
    }
}

/// Cycling an action three times gives it back.
pub proof fn law_cycle_three_times(a: RebaseAction)
    ensures
        cycled(cycled(cycled(a))) == a,
{
}

/// The action after `a` in the cycle.
pub open spec fn cycled(a: RebaseAction) -> RebaseAction {
    match a {
        RebaseAction::Pick => RebaseAction::Squash,
        RebaseAction::Squash => RebaseAction::Drop,
        RebaseAction::Drop => RebaseAction::Pick,
    }
}

impl Overlay {
    /// Whether a popup is open.
    pub fn is_active(&self) -> (b: bool)
        ensures
            b == !(self is Closed),
    {
        match self {
            Overlay::Closed => false,
            _ => true,
        }
    }
}

/// The scroll that puts row `start` a third of the way down a viewport of
/// `height` rows.
pub open spec fn focus_scroll(start: usize, height: usize) -> usize {
    start.saturating_sub(height / 3)
}

/// Scroll value that keeps `cursor` visible (see `App::keep_cursor_visible`).
pub open spec fn visible_scroll(cursor: usize, scroll: usize, height: usize) -> usize {
    let margin = height / 3;
    if cursor < scroll + margin {
        cursor.saturating_sub(margin)
    } else if cursor >= scroll + height.saturating_sub(margin) {
        cursor.saturating_sub(height.saturating_sub(margin).saturating_sub(1))
    } else {
        scroll
    }
}

/// Index of the first hunk holding `row`, if any.
pub open spec fn hunk_at(hunks: Seq<Hunk>, row: usize) -> Option<int>
    decreases hunks.len(),
{
    if hunks.len() == 0 {
        None
    } else {
        match hunk_at(hunks.drop_last(), row) {
            Some(i) => Some(i),
            None => if hunks.last().display_start <= row < hunks.last().display_end {
                Some(hunks.len() - 1)
            } else {
                None
            },
        }
    }
}

/// Index of the first hunk that ends after `row`, if any.
pub open spec fn hunk_ending_after(hunks: Seq<Hunk>, row: usize) -> Option<int>
    decreases hunks.len(),
{
    if hunks.len() == 0 {
        None
    } else {
        match hunk_ending_after(hunks.drop_last(), row) {
            Some(i) => Some(i),
            None => if row < hunks.last().display_end {
                Some(hunks.len() - 1)
            } else {
                None
            },
        }
    }
}

/// The row the scroll focuses on: a third down the viewport once there is
/// room above, else the top row.
pub open spec fn focus_line(scroll: usize, height: usize) -> int {
    if scroll >= height / 3 {
        scroll + height / 3
    } else {
        scroll as int
    }
}

/// The hunk that scrolling to `scroll` makes current: the first that ends
/// after the focus row, else the last one.
pub open spec fn hunk_for_scroll(hunks: Seq<Hunk>, scroll: usize, height: usize, current: usize) -> usize {
    match hunk_ending_after(hunks, focus_line(scroll, height) as usize) {
        Some(i) => i as usize,
        None => if hunks.len() > 0 {
            (hunks.len() - 1) as usize
        } else {
            current
        },
    }
}

impl DiffState {
    /// Hunks lie inside the diff, and the current hunk is one of them.
    pub open spec fn wf(&self) -> bool {
        &&& self.left_lines.len() == self.right_lines.len()
        &&& forall|i: int|
            0 <= i < self.hunks.len() ==> (#[trigger] self.hunks[i]).display_start
                <= self.hunks[i].display_end <= self.left_lines.len()
        &&& (self.hunks.len() == 0 || self.current_hunk < self.hunks.len())
    }
}

/// Work that needs the repository, the file system, the clipboard or the
/// terminal. The interface asks for it; the caller performs it and reports
/// the outcome back through the matching method of `App`.
pub enum Command {
    Nothing,
    /// Open the command popup (the caller tells whether a rebase is running).
    OpenWhichKey,
    /// The theme changed: rebuild the syntax highlighter.
    ThemeChanged,
    /// Re-read the file statuses, then reload the diff if asked.
    Refresh { reload_diff: bool },
    /// Load the diff (or conflict resolver) of the selected file.
    LoadDiff,
    ReadConflictFile { path: String },
    FetchDiff { path: String, staged: bool, want_blame: bool },
    ReadDiff { path: String, staged: bool },
    LoadLargeFile { path: String, staged: bool },
    StageFile { path: String },
    UnstageFile { path: String },
    DiscardFile { path: String },
    StageContent { path: String, content: String, done: String, reset_line_mode: bool },
    LoadBlame { path: String },
    Yank { text: String },
    WriteResolved { path: String, content: String },
    StageResolved { path: String },
    ListBranches,
    Checkout { name: String, force: bool },
    CreateBranch { name: String },
    StashSave,
    StashThenCheckout { branch: String },
    ListStashes,
    StashPop { index: usize, sel: usize },
    StashApply { index: usize, sel: usize },
    StashDrop { index: usize, sel: usize },
    RelistStashes { sel: usize },
    CheckStaged,
    Commit { message: String, amend: bool },
    LoadLastMessage,
    UndoCommit,
    LoadLog,
    LoadCommitDetail { hash: String, message: String, index: usize },
    RunRebase { todo: String, base: String },
    RebaseContinue,
    RebaseAbort,
}

/// The whole state of the interface.
pub struct App {
    /// Working directory of the repository.
    pub workdir: String,
    pub file_entries: Vec<FileEntry>,
    pub selected_index: usize,
    /// Whether the "Repository" header is selected (above all files)
    pub header_selected: bool,
    pub active_panel: Panel,
    pub diff_state: Option<DiffState>,
    pub branch_name: String,
    pub ahead_behind: (usize, usize),
    pub should_quit: bool,
    pub status_message: Option<String>,
    pub overlay: Overlay,
    /// Saved commit message from undo, pre-filled on next commit
    pub saved_commit_msg: Option<String>,
    /// File list filter (None = not filtering)
    pub file_filter: Option<String>,
    /// Blame annotations for the current file (None = blame not loaded)
    pub blame_data: Option<Vec<BlameLine>>,
    pub show_blame: bool,
    /// Pending request to open the editor
    pub pending_editor: Option<EditorRequest>,
    /// Pending shell command that needs terminal access
    pub pending_terminal_cmd: Option<TerminalCmd>,
    /// Which-key popup entries (None = popup closed)
    pub which_key: Option<Vec<WhichKeyEntry>>,
    /// Conflict resolver state
    pub conflict_state: Option<ConflictState>,
    /// UI color theme
    pub theme: Theme,
    /// Terminal height in rows
    pub term_height: usize,
    /// Large file that was skipped during auto-load (path, size_bytes, is_staged)
    pub large_file_skipped: Option<(String, u64, bool)>,
}

impl App {
    /// Scroll just enough to keep the cursor visible, a third of the
    /// viewport from its top or bottom edge.
    pub fn keep_cursor_visible(ds: &mut DiffState)
        requires
            old(ds).scroll + old(ds).viewport_height / 3 <= usize::MAX,
            old(ds).cursor_line >= old(ds).scroll + old(ds).viewport_height / 3 ==> old(ds).scroll
                + old(ds).viewport_height.saturating_sub(old(ds).viewport_height / 3) <= usize::MAX,
        ensures
            *final(ds) == (DiffState {
                scroll: visible_scroll(old(ds).cursor_line, old(ds).scroll, old(ds).viewport_height),
                ..*old(ds)
            }),
    {
        let margin = ds.viewport_height / 3;
        if ds.cursor_line < ds.scroll + margin {
            ds.scroll = ds.cursor_line.saturating_sub(margin);
        } else if ds.cursor_line >= ds.scroll + ds.viewport_height.saturating_sub(margin) {
            ds.scroll = ds.cursor_line.saturating_sub(
                ds.viewport_height.saturating_sub(margin).saturating_sub(1),
            );
        }
    }

    /// Make current the hunk the cursor is in, if it is in one.
    pub fn update_current_hunk_from_cursor(ds: &mut DiffState)
        ensures
            *final(ds) == (DiffState {
                current_hunk: match hunk_at(old(ds).hunks@, old(ds).cursor_line) {
                    Some(i) => i as usize,
                    None => old(ds).current_hunk,
                },
                ..*old(ds)
            }),
    {
        let mut i: usize = 0;
        while i < ds.hunks.len()
            invariant
                i <= ds.hunks.len(),
                *ds == *old(ds),
                hunk_at(ds.hunks@.take(i as int), ds.cursor_line) is None,
            decreases ds.hunks.len() - i,
        {
            assert(ds.hunks@.take(i + 1).drop_last() =~= ds.hunks@.take(i as int));
            if ds.cursor_line >= ds.hunks[i].display_start && ds.cursor_line < ds.hunks[i].display_end {
                proof {
                    lemma_hunk_at_prefix(ds.hunks@, ds.cursor_line, i as int);
                }
                ds.current_hunk = i;
                return;
            }
            i = i + 1;
        }
        assert(ds.hunks@.take(ds.hunks.len() as int) =~= ds.hunks@);
    }

    /// Make current the hunk nearest the focus row of the viewport: the first
    /// that ends after it, else the last.
    pub fn update_current_hunk_from_scroll(ds: &mut DiffState)
        requires
            old(ds).scroll + old(ds).viewport_height / 3 <= usize::MAX,
        ensures
            *final(ds) == (DiffState {
                current_hunk: hunk_for_scroll(
                    old(ds).hunks@,
                    old(ds).scroll,
                    old(ds).viewport_height,
                    old(ds).current_hunk,
                ),
                ..*old(ds)
            }),
    {
        let offset = ds.viewport_height / 3;
        let focus = if ds.scroll >= offset {
            ds.scroll + offset
        } else {
            ds.scroll
        };
        let mut i: usize = 0;
        while i < ds.hunks.len()
            invariant
                i <= ds.hunks.len(),
                *ds == *old(ds),
                focus == focus_line(ds.scroll, ds.viewport_height),
                hunk_ending_after(ds.hunks@.take(i as int), focus) is None,
            decreases ds.hunks.len() - i,
        {
            assert(ds.hunks@.take(i + 1).drop_last() =~= ds.hunks@.take(i as int));
            if focus < ds.hunks[i].display_end {
                proof {
                    lemma_hunk_ending_after_prefix(ds.hunks@, focus, i as int);
                }
                ds.current_hunk = i;
                return;
            }
            i = i + 1;
        }
        assert(ds.hunks@.take(ds.hunks.len() as int) =~= ds.hunks@);
        if ds.hunks.len() > 0 {
            ds.current_hunk = ds.hunks.len() - 1;
        }
    }
}

proof fn lemma_hunk_at_prefix(hs: Seq<Hunk>, row: usize, i: int)
    requires
        0 <= i < hs.len(),
        hunk_at(hs.take(i), row) is None,
        hs[i].display_start <= row < hs[i].display_end,
    ensures
        hunk_at(hs, row) == Some(i),
    decreases hs.len(),
{
    if i < hs.len() - 1 {
        assert(hs.drop_last().take(i) =~= hs.take(i));
        lemma_hunk_at_prefix(hs.drop_last(), row, i);
    } else {
        assert(hs.drop_last() =~= hs.take(i));
    }
}

proof fn lemma_hunk_ending_after_prefix(hs: Seq<Hunk>, row: usize, i: int)
    requires
        0 <= i < hs.len(),
        hunk_ending_after(hs.take(i), row) is None,
        row < hs[i].display_end,
    ensures
        hunk_ending_after(hs, row) == Some(i),
    decreases hs.len(),
{
    if i < hs.len() - 1 {
        assert(hs.drop_last().take(i) =~= hs.take(i));
        lemma_hunk_ending_after_prefix(hs.drop_last(), row, i);
    } else {
        assert(hs.drop_last() =~= hs.take(i));
    }
}

/// The hunk found for a row is one of the hunks.
pub proof fn lemma_hunk_at_in_range(hs: Seq<Hunk>, row: usize)
    ensures
        hunk_at(hs, row) matches Some(i) ==> 0 <= i < hs.len(),
    decreases hs.len(),
{
    if hs.len() > 0 {
        lemma_hunk_at_in_range(hs.drop_last(), row);
    }
}

/// The hunk found ending after a row is one of the hunks.
pub proof fn lemma_hunk_ending_after_in_range(hs: Seq<Hunk>, row: usize)
    ensures
        hunk_ending_after(hs, row) matches Some(i) ==> 0 <= i < hs.len(),
    decreases hs.len(),
{
    if hs.len() > 0 {
        lemma_hunk_ending_after_in_range(hs.drop_last(), row);
    }
}

} // verus!
