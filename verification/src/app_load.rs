//! Loading the selected file: the conflict resolver for a conflicted file,
//! else its diff, keeping the place in it when the same file is reloaded.
use vstd::prelude::*;
use std::collections::BTreeSet;

use crate::app::{
    focus_scroll, App, Command, DiffState, DiffViewMode, LARGE_FILE_THRESHOLD,
};
use crate::conflict::{parse_conflicts, parsed_from, ConflictState};
use crate::diff::{compute_diff, diff_acc, diff_hunks, line_diff, DiffLine, Hunk};
use crate::log::BlameLine;
use crate::status::FileStatus;
use crate::text::{concat2, lines_of};
use crate::which_key::selected_entry;

verus! {

broadcast use vstd::std_specs::btree::group_btree_axioms, vstd::laws_cmp::group_laws_cmp;

/// The diff state kept across a reload: the previous one, when it showed
/// the same file.
pub open spec fn same_file(prev: Option<DiffState>, path: Seq<char>) -> Option<DiffState> {
    match prev {
        Some(p) => if p.file_path@ == path {
            Some(p)
        } else {
            None
        },
        None => None,
    }
}

/// `d` shows the diff of `old` against `new` for `path`.
pub open spec fn shows_diff(d: DiffState, path: String, staged: bool, old: String, new: String) -> bool {
    let cs = line_diff(old@, new@);
    &&& d.file_path == path
    &&& d.is_staged == staged
    &&& d.old_content == old
    &&& d.new_content == new
    &&& d.left_lines@.map_values(|l: DiffLine| l.model()) == diff_acc(cs).0
    &&& d.right_lines@.map_values(|l: DiffLine| l.model()) == diff_acc(cs).1
    &&& d.hunks@.map_values(|h: Hunk| h.model()) == diff_hunks(cs)
    &&& d.max_scroll == d.left_lines.len()
    &&& d.wf()
}

/// `d` is the reloaded diff: the cursor, selection, scroll and view kept from
/// `prev` (the current hunk held inside the new hunks, the scroll inside the
/// new rows), or a fresh state at the first hunk.
pub open spec fn reloaded(d: DiffState, prev: Option<DiffState>) -> bool {
    let nh = d.hunks.len();
    match prev {
        Some(p) => {
            &&& d.current_hunk == (if p.current_hunk < nh.saturating_sub(1) {
                p.current_hunk
            } else {
                nh.saturating_sub(1) as usize
            })
            &&& d.view_mode == p.view_mode
            &&& d.cursor_line == p.cursor_line
            &&& d.selected_lines == p.selected_lines
            &&& d.hunk_changed_rows == p.hunk_changed_rows
            &&& d.viewport_height == p.viewport_height
            &&& d.h_scroll == p.h_scroll
            &&& d.scroll == (if p.scroll < d.max_scroll {
                p.scroll
            } else {
                d.max_scroll
            })
            &&& d.saved_line_selection == p.saved_line_selection
        },
        None => {
            &&& d.current_hunk == 0
            &&& d.view_mode == DiffViewMode::HunkNav
            &&& d.cursor_line == 0
            &&& d.selected_lines@ == Set::<usize>::empty()
            &&& d.hunk_changed_rows@ == Seq::<usize>::empty()
            &&& d.viewport_height == 24
            &&& d.h_scroll == 0
            &&& d.scroll == (if nh > 0 {
                focus_scroll(d.hunks@[0].display_start, 24)
            } else {
                0
            })
            &&& d.saved_line_selection is None
        },
    }
}

/// The diff state of a large file loaded on request: at its first hunk.
pub open spec fn fresh_large(d: DiffState, viewport: usize) -> bool {
    &&& d.current_hunk == 0
    &&& d.view_mode == DiffViewMode::HunkNav
    &&& d.cursor_line == 0
    &&& d.selected_lines@ == Set::<usize>::empty()
    &&& d.hunk_changed_rows@ == Seq::<usize>::empty()
    &&& d.viewport_height == viewport
    &&& d.h_scroll == 0
    &&& d.scroll == (if d.hunks.len() > 0 {
        focus_scroll(d.hunks@[0].display_start, viewport)
    } else {
        0
    })
    &&& d.saved_line_selection is None
}

/// Load the large file that was skipped.
pub open spec fn request_large_file_post(o: App, n: App, c: Command) -> bool {
    &&& (match o.large_file_skipped {
        Some((path, _size, staged)) => {
            &&& c == (Command::LoadLargeFile { path, staged })
            &&& n.status_message matches Some(m) && m@ == "Loading large file: "@
                + path@
            &&& n == (App {
                large_file_skipped: None,
                status_message: n.status_message,
                ..o
            })
        },
        None => c is Nothing && n == o,
    })
}

impl App {
    /// First step of loading the selected file: a conflicted file opens the
    /// resolver (its text is needed); another file needs its diff (and its
    /// blame when blame is shown and the file changed).
    pub fn begin_load(&mut self) -> (c: Command)
        ensures
            old(self).wf() ==> final(self).wf(),
            match selected_entry(*old(self)) {
                None => c is Nothing && *final(self) == *old(self),
                Some(e) => if e.status == FileStatus::Conflict {
                    &&& c == (Command::ReadConflictFile { path: e.path })
                    &&& *final(self) == (App { diff_state: None, ..*old(self) })
                } else {
                    &&& c == (Command::FetchDiff {
                        path: e.path,
                        staged: e.status is Staged,
                        want_blame: old(self).show_blame && !(old(self).diff_state matches Some(ds)
                            && ds.file_path@ == e.path@),
                    })
                    &&& *final(self) == (App { conflict_state: None, ..*old(self) })
                },
            },
    {
        let mut target: Option<(String, FileStatus)> = None;
        if let Some(entry) = self.selected_file_entry() {
            target = Some((entry.path.clone(), entry.status));
        }
        match target {
            None => Command::Nothing,
            Some((path, status)) => {
                if status == FileStatus::Conflict {
                    self.diff_state = None;
                    return Command::ReadConflictFile { path };
                }
                self.conflict_state = None;
                let same = match &self.diff_state {
                    Some(ds) => ds.file_path == path,
                    None => false,
                };
                let staged = match status {
                    FileStatus::Staged(_) => true,
                    _ => false,
                };
                Command::FetchDiff { path, staged, want_blame: self.show_blame && !same }
            },
        }
    }

    /// Open the conflict resolver on a conflicted file's text (nothing when
    /// the file could not be read or holds no conflict block).
    pub fn open_conflict(&mut self, path: String, content: Option<String>)
        ensures
            old(self).wf() ==> final(self).wf(),
            match content {
                Some(text) => if crate::conflict::scan_until(lines_of(text@), 0, '<') >= lines_of(
                    text@,
                ).len() {
                    *final(self) == *old(self)
                } else {
                    &&& final(self).conflict_state matches Some(cs) && (exists|p|
                        parsed_from(lines_of(text@), p) && cs.sections@ == p.sections@ && cs.prefix@
                            == p.prefix@ && cs.left_name == p.left_name && cs.right_name
                            == p.right_name) && cs.file_path == path && cs.current_section == 0
                    &&& final(self).status_message matches Some(m) && m@
                        == "Conflict: Space=actions  \u{2191}/\u{2193}=navigate  \u{2190}/Esc=back"@
                    &&& *final(self) == (App {
                        conflict_state: final(self).conflict_state,
                        status_message: final(self).status_message,
                        ..*old(self)
                    })
                },
                None => *final(self) == *old(self),
            },
    {
        if let Some(text) = content {
            if let Some(parsed) = parse_conflicts(text.as_str()) {
                proof {
                    let ls = lines_of(text@);
                    crate::conflict::lemma_scan_bounds(ls, 0, '<');
                    assert(crate::conflict::blocks_from(ls, crate::conflict::scan_until(ls, 0, '<')).len() > 0);
                }
                let ghost pm = parsed;
                let cs = ConflictState::from_parsed(path, parsed);
                assert(parsed_from(lines_of(text@), pm) && cs.sections@ == pm.sections@);
                self.conflict_state = Some(cs);
                self.status_message = Some(
                    String::from_str(
                        "Conflict: Space=actions  \u{2191}/\u{2193}=navigate  \u{2190}/Esc=back",
                    ),
                );
            }
        }
    }

    /// Replace the blame lines (fetched for a newly selected file).
    pub fn set_blame(&mut self, data: Option<Vec<BlameLine>>)
        ensures
            old(self).wf() ==> final(self).wf(),
            *final(self) == (App { blame_data: data, ..*old(self) }),
    {
        self.blame_data = data;
    }

    /// Files over the size limit are not diffed until asked for.
    pub fn check_file_size(&mut self, path: String, staged: bool, size: u64) -> (c: Command)
        ensures
            old(self).wf() ==> final(self).wf(),
            if size > LARGE_FILE_THRESHOLD {
                &&& c is Nothing
                &&& *final(self) == (App {
                    diff_state: None,
                    large_file_skipped: Some((path, size, staged)),
                    ..*old(self)
                })
            } else {
                &&& c == (Command::ReadDiff { path, staged })
                &&& *final(self) == (App { large_file_skipped: None, ..*old(self) })
            },
    {
        if size > LARGE_FILE_THRESHOLD {
            self.diff_state = None;
            self.large_file_skipped = Some((path, size, staged));
            Command::Nothing
        } else {
            self.large_file_skipped = None;
            Command::ReadDiff { path, staged }
        }
    }

    /// Show the diff of the file's two versions (`None`: they could not be
    /// read), keeping the place when the same file is reloaded.
    pub fn apply_diff_content(&mut self, path: String, staged: bool, content: Option<(String, String)>)
        ensures
            old(self).wf() ==> final(self).wf(),
            match content {
                Some((old_text, new_text)) => {
                    &&& final(self).diff_state matches Some(d) && shows_diff(d, path, staged, old_text, new_text)
                        && reloaded(d, same_file(old(self).diff_state, path@))
                    &&& *final(self) == (App { diff_state: final(self).diff_state, ..*old(self) })
                },
                None => {
                    &&& final(self).status_message matches Some(m) && m@ == "Cannot diff: "@ + path@
                    &&& *final(self) == (App {
                        diff_state: None,
                        status_message: final(self).status_message,
                        ..*old(self)
                    })
                },
            },
    {
        match content {
            None => {
                self.diff_state = None;
                self.status_message = Some(concat2("Cannot diff: ", path.as_str()));
            },
            Some((old_text, new_text)) => {
                let (left_lines, right_lines, hunks) = compute_diff(old_text.as_str(), new_text.as_str());
                let max_scroll = left_lines.len();
                let nh = hunks.len();
                let mut prev: Option<DiffState> = None;
                std::mem::swap(&mut prev, &mut self.diff_state);
                let ghost prev_model = prev;
                let keep = match &prev {
                    Some(p) => p.file_path == path,
                    None => false,
                };
                let d = if keep {
                    let p = prev.unwrap();
                    let cur = if p.current_hunk < nh.saturating_sub(1) {
                        p.current_hunk
                    } else {
                        nh.saturating_sub(1)
                    };
                    let scroll = if p.scroll < max_scroll {
                        p.scroll
                    } else {
                        max_scroll
                    };
                    DiffState {
                        file_path: path,
                        left_lines,
                        right_lines,
                        hunks,
                        current_hunk: cur,
                        scroll,
                        max_scroll,
                        old_content: old_text,
                        new_content: new_text,
                        view_mode: p.view_mode,
                        cursor_line: p.cursor_line,
                        selected_lines: p.selected_lines,
                        hunk_changed_rows: p.hunk_changed_rows,
                        saved_line_selection: p.saved_line_selection,
                        viewport_height: p.viewport_height,
                        is_staged: staged,
                        h_scroll: p.h_scroll,
                    }
                } else {
                    let scroll = if nh > 0 {
                        hunks[0].display_start.saturating_sub(24 / 3)
                    } else {
                        0
                    };
                    DiffState {
                        file_path: path,
                        left_lines,
                        right_lines,
                        hunks,
                        current_hunk: 0,
                        scroll,
                        max_scroll,
                        old_content: old_text,
                        new_content: new_text,
                        view_mode: DiffViewMode::HunkNav,
                        cursor_line: 0,
                        selected_lines: BTreeSet::new(),
                        hunk_changed_rows: Vec::new(),
                        saved_line_selection: None,
                        viewport_height: 24,
                        is_staged: staged,
                        h_scroll: 0,
                    }
                };
                self.diff_state = Some(d);
            },
        }
    }

    /// Load the large file that was skipped.
    pub fn request_large_file(&mut self) -> (c: Command)
        ensures
            old(self).wf() ==> final(self).wf(),
            request_large_file_post(*old(self), *final(self), c),
    {
        let mut skipped: Option<(String, u64, bool)> = None;
        std::mem::swap(&mut skipped, &mut self.large_file_skipped);
        match skipped {
            Some((path, _size, staged)) => {
                self.status_message = Some(concat2("Loading large file: ", path.as_str()));
                Command::LoadLargeFile { path, staged }
            },
            None => Command::Nothing,
        }
    }

    /// Show a large file's diff, at its first hunk.
    pub fn apply_large_file(&mut self, path: String, staged: bool, content: Option<(String, String)>)
        ensures
            old(self).wf() ==> final(self).wf(),
            match content {
                Some((old_text, new_text)) => {
                    &&& final(self).diff_state matches Some(d) && shows_diff(d, path, staged, old_text, new_text)
                        && fresh_large(
                        d,
                        match old(self).diff_state {
                            Some(p) => p.viewport_height,
                            None => 24,
                        },
                    )
                    &&& *final(self) == (App {
                        diff_state: final(self).diff_state,
                        status_message: None,
                        ..*old(self)
                    })
                },
                None => {
                    &&& final(self).status_message matches Some(m) && m@ == "Cannot diff: "@ + path@
                    &&& *final(self) == (App {
                        diff_state: None,
                        status_message: final(self).status_message,
                        ..*old(self)
                    })
                },
            },
    {
        match content {
            None => {
                self.diff_state = None;
                self.status_message = Some(concat2("Cannot diff: ", path.as_str()));
            },
            Some((old_text, new_text)) => {
                let (left_lines, right_lines, hunks) = compute_diff(old_text.as_str(), new_text.as_str());
                let max_scroll = left_lines.len();
                let viewport = match &self.diff_state {
                    Some(ds) => ds.viewport_height,
                    None => 24,
                };
                let scroll = if hunks.len() > 0 {
                    hunks[0].display_start.saturating_sub(viewport / 3)
                } else {
                    0
                };
                self.diff_state = Some(
                    DiffState {
                        file_path: path,
                        left_lines,
                        right_lines,
                        hunks,
                        current_hunk: 0,
                        scroll,
                        max_scroll,
                        old_content: old_text,
                        new_content: new_text,
                        view_mode: DiffViewMode::HunkNav,
                        cursor_line: 0,
                        selected_lines: BTreeSet::new(),
                        hunk_changed_rows: Vec::new(),
                        saved_line_selection: None,
                        viewport_height: viewport,
                        is_staged: staged,
                        h_scroll: 0,
                    },
                );
                self.status_message = None;
            },
        }
    }
}

} // verus!
