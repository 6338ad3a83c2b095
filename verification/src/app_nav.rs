//! Moving up and down: through popups, the file list, conflict sections,
//! and the rows of a diff.
use vstd::prelude::*;

use crate::app::{
    focus_line, hunk_at, hunk_for_scroll, visible_scroll, App, Command, DiffState, DiffViewMode,
    Overlay, Panel,
};

verus! {

/// Index of the first occurrence of `x` in `v`.
pub open spec fn first_pos(v: Seq<usize>, x: usize) -> Option<int>
    decreases v.len(),
{
    if v.len() == 0 {
        None
    } else {
        match first_pos(v.drop_last(), x) {
            Some(i) => Some(i),
            None => if v.last() == x {
                Some(v.len() - 1)
            } else {
                None
            },
        }
    }
}

proof fn lemma_first_pos_prefix(v: Seq<usize>, x: usize, i: int)
    requires
        0 <= i < v.len(),
        first_pos(v.take(i), x) is None,
        v[i] == x,
    ensures
        first_pos(v, x) == Some(i),
    decreases v.len(),
{
    if i < v.len() - 1 {
        assert(v.drop_last().take(i) =~= v.take(i));
        lemma_first_pos_prefix(v.drop_last(), x, i);
    } else {
        assert(v.drop_last() =~= v.take(i));
    }
}

pub proof fn lemma_first_pos_bound(v: Seq<usize>, x: usize)
    ensures
        first_pos(v, x) matches Some(i) ==> 0 <= i < v.len() && v[i] == x,
    decreases v.len(),
{
    if v.len() > 0 {
        lemma_first_pos_bound(v.drop_last(), x);
    }
}

/// Where `x` first occurs in `v`.
pub fn position_of(v: &Vec<usize>, x: usize) -> (r: Option<usize>)
    ensures
        match r {
            Some(i) => first_pos(v@, x) == Some(i as int),
            None => first_pos(v@, x) is None,
        },
{
    let mut i: usize = 0;
    while i < v.len()
        invariant
            i <= v.len(),
            first_pos(v@.take(i as int), x) is None,
        decreases v.len() - i,
    {
        assert(v@.take(i + 1).drop_last() =~= v@.take(i as int));
        if v[i] == x {
            proof {
                lemma_first_pos_prefix(v@, x, i as int);
            }
            return Some(i);
        }
        i = i + 1;
    }
    assert(v@.take(v.len() as int) =~= v@);
    None
}

/// Scrolling keeps these sums inside `usize`.
pub open spec fn keep_visible_ok(cursor: usize, scroll: usize, height: usize) -> bool {
    &&& scroll + height / 3 <= usize::MAX
    &&& cursor >= scroll + height / 3 ==> scroll + height.saturating_sub(height / 3) <= usize::MAX
}

impl DiffState {
    /// The diff scrolled to `s`, the current hunk following the scroll.
    pub open spec fn scrolled_to(self, s: usize) -> DiffState {
        DiffState {
            scroll: s,
            current_hunk: hunk_for_scroll(self.hunks@, s, self.viewport_height, self.current_hunk),
            ..self
        }
    }

    /// The line cursor moved to `row`: scrolled to keep it visible, its hunk
    /// made current.
    pub open spec fn cursor_moved_to(self, row: usize) -> DiffState {
        DiffState {
            cursor_line: row,
            scroll: visible_scroll(row, self.scroll, self.viewport_height),
            current_hunk: match hunk_at(self.hunks@, row) {
                Some(i) => i as usize,
                None => self.current_hunk,
            },
            ..self
        }
    }

    /// The changed row the cursor moves to going up, if any.
    pub open spec fn row_above(self) -> Option<usize> {
        match first_pos(self.hunk_changed_rows@, self.cursor_line) {
            Some(p) => if p > 0 {
                Some(self.hunk_changed_rows@[p - 1])
            } else {
                None
            },
            None => None,
        }
    }

    /// The changed row the cursor moves to going down, if any.
    pub open spec fn row_below(self) -> Option<usize> {
        match first_pos(self.hunk_changed_rows@, self.cursor_line) {
            Some(p) => if p + 1 < self.hunk_changed_rows.len() {
                Some(self.hunk_changed_rows@[p + 1])
            } else {
                None
            },
            None => None,
        }
    }

    /// One step up: one row of scroll by hunks, one changed line by lines.
    pub open spec fn moved_up(self) -> DiffState {
        match self.view_mode {
            DiffViewMode::HunkNav => self.scrolled_to(self.scroll.saturating_sub(1)),
            DiffViewMode::LineNav => match self.row_above() {
                Some(r) => self.cursor_moved_to(r),
                None => self,
            },
        }
    }

    /// One step down: one row of scroll (up to `max_scroll`) by hunks, one
    /// changed line by lines.
    pub open spec fn moved_down(self) -> DiffState {
        match self.view_mode {
            DiffViewMode::HunkNav => self.scrolled_to(
                if self.scroll < self.max_scroll {
                    (self.scroll + 1) as usize
                } else {
                    self.scroll
                },
            ),
            DiffViewMode::LineNav => match self.row_below() {
                Some(r) => self.cursor_moved_to(r),
                None => self,
            },
        }
    }

    /// The step up stays inside `usize`.
    pub open spec fn move_up_ok(self) -> bool {
        match self.view_mode {
            DiffViewMode::HunkNav => self.scroll.saturating_sub(1) + self.viewport_height / 3
                <= usize::MAX,
            DiffViewMode::LineNav => match self.row_above() {
                Some(r) => keep_visible_ok(r, self.scroll, self.viewport_height),
                None => true,
            },
        }
    }

    /// The step down stays inside `usize`.
    pub open spec fn move_down_ok(self) -> bool {
        match self.view_mode {
            DiffViewMode::HunkNav => (if self.scroll < self.max_scroll {
                self.scroll + 1
            } else {
                self.scroll as int
            }) + self.viewport_height / 3 <= usize::MAX,
            DiffViewMode::LineNav => match self.row_below() {
                Some(r) => keep_visible_ok(r, self.scroll, self.viewport_height),
                None => true,
            },
        }
    }

    fn move_up(&mut self)
        requires
            old(self).move_up_ok(),
        ensures
            *final(self) == old(self).moved_up(),
    {
        match self.view_mode {
            DiffViewMode::HunkNav => {
                self.scroll = self.scroll.saturating_sub(1);
                App::update_current_hunk_from_scroll(self);
            },
            DiffViewMode::LineNav => {
                proof {
                    lemma_first_pos_bound(self.hunk_changed_rows@, self.cursor_line);
                }
                if let Some(pos) = position_of(&self.hunk_changed_rows, self.cursor_line) {
                    if pos > 0 {
                        self.cursor_line = self.hunk_changed_rows[pos - 1];
                        App::keep_cursor_visible(self);
                        App::update_current_hunk_from_cursor(self);
                    }
                }
            },
        }
    }

    fn move_down(&mut self)
        requires
            old(self).move_down_ok(),
        ensures
            *final(self) == old(self).moved_down(),
    {
        match self.view_mode {
            DiffViewMode::HunkNav => {
                if self.scroll < self.max_scroll {
                    self.scroll = self.scroll + 1;
                }
                App::update_current_hunk_from_scroll(self);
            },
            DiffViewMode::LineNav => {
                proof {
                    lemma_first_pos_bound(self.hunk_changed_rows@, self.cursor_line);
                }
                if let Some(pos) = position_of(&self.hunk_changed_rows, self.cursor_line) {
                    if pos + 1 < self.hunk_changed_rows.len() {
                        self.cursor_line = self.hunk_changed_rows[pos + 1];
                        App::keep_cursor_visible(self);
                        App::update_current_hunk_from_cursor(self);
                    }
                }
            },
        }
    }
}

/// What `handle_move_up` does.
pub open spec fn move_up_post(o: App, n: App, c: Command) -> bool {
    &&& ((n, c) == o.moved_up())
}

/// What `handle_move_down` does.
pub open spec fn move_down_post(o: App, n: App, c: Command) -> bool {
    &&& ((n, c) == o.moved_down())
}

impl App {
    /// One step up in whatever has the focus: the open popup, the file list
    /// (the header above the first file, wrapping to the last), the conflict
    /// sections, or the diff.
    pub open spec fn moved_up(self) -> (App, Command) {
        match self.overlay {
            Overlay::GitLog { entries, selected, scroll } => {
                let sel = if selected > 0 {
                    (selected - 1) as usize
                } else {
                    selected
                };
                let sc = if selected > 0 && sel < scroll {
                    sel
                } else {
                    scroll
                };
                (App { overlay: Overlay::GitLog { entries, selected: sel, scroll: sc }, ..self }, Command::Nothing)
            },
            Overlay::CommitInput { input, amend } => (
                App { overlay: Overlay::CommitInput { input: input.after_move_up(), amend }, ..self },
                Command::Nothing,
            ),
            Overlay::StashList { entries, selected } => (
                App { overlay: Overlay::StashList { entries, selected: selected.saturating_sub(1) }, ..self },
                Command::Nothing,
            ),
            Overlay::BranchList { entries, selected, creating } => if creating is None {
                (
                    App {
                        overlay: Overlay::BranchList { entries, selected: selected.saturating_sub(1), creating },
                        ..self
                    },
                    Command::Nothing,
                )
            } else {
                (self, Command::Nothing)
            },
            Overlay::CommitDetail {
                hash,
                message,
                left_lines,
                right_lines,
                hunks,
                current_hunk,
                file_extensions,
                scroll,
                viewport_height,
                log_entries,
                log_selected,
            } => (
                App {
                    overlay: Overlay::CommitDetail {
                        hash,
                        message,
                        left_lines,
                        right_lines,
                        hunks,
                        current_hunk,
                        file_extensions,
                        scroll: scroll.saturating_sub(1),
                        viewport_height,
                        log_entries,
                        log_selected,
                    },
                    ..self
                },
                Command::Nothing,
            ),
            Overlay::Rebase { entries, selected, base_hash } => (
                App { overlay: Overlay::Rebase { entries, selected: selected.saturating_sub(1), base_hash }, ..self },
                Command::Nothing,
            ),
            Overlay::Confirm { .. } => (self, Command::Nothing),
            Overlay::DirtyCheckout { .. } => (self, Command::Nothing),
            Overlay::Closed => if self.active_panel == Panel::FileList {
                if self.header_selected {
                    if self.file_entries.len() > 0 {
                        (
                            App {
                                header_selected: false,
                                selected_index: (self.file_entries.len() - 1) as usize,
                                ..self
                            },
                            Command::LoadDiff,
                        )
                    } else {
                        (self, Command::Nothing)
                    }
                } else if self.selected_index > 0 {
                    (App { selected_index: (self.selected_index - 1) as usize, ..self }, Command::LoadDiff)
                } else {
                    (
                        App { header_selected: true, diff_state: None, conflict_state: None, ..self },
                        Command::Nothing,
                    )
                }
            } else {
                match self.conflict_state {
                    Some(cs) => (
                        App {
                            conflict_state: Some(
                                crate::conflict::ConflictState {
                                    current_section: cs.current_section.saturating_sub(1),
                                    ..cs
                                },
                            ),
                            ..self
                        },
                        Command::Nothing,
                    ),
                    None => match self.diff_state {
                        Some(ds) => (App { diff_state: Some(ds.moved_up()), ..self }, Command::Nothing),
                        None => (self, Command::Nothing),
                    },
                }
            },
        }
    }

    /// One step down (the mirror of `moved_up`; the file list wraps from the
    /// last file to the header, the log keeps twenty rows in view).
    pub open spec fn moved_down(self) -> (App, Command) {
        match self.overlay {
            Overlay::GitLog { entries, selected, scroll } => if selected < entries.len().saturating_sub(1) {
                let sel = (selected + 1) as usize;
                let sc = if sel >= scroll + 20 {
                    sel.saturating_sub(19)
                } else {
                    scroll
                };
                (App { overlay: Overlay::GitLog { entries, selected: sel, scroll: sc }, ..self }, Command::Nothing)
            } else {
                (self, Command::Nothing)
            },
            Overlay::CommitInput { input, amend } => (
                App { overlay: Overlay::CommitInput { input: input.after_move_down(), amend }, ..self },
                Command::Nothing,
            ),
            Overlay::StashList { entries, selected } => (
                App {
                    overlay: Overlay::StashList {
                        entries,
                        selected: if selected < entries.len().saturating_sub(1) {
                            (selected + 1) as usize
                        } else {
                            selected
                        },
                    },
                    ..self
                },
                Command::Nothing,
            ),
            Overlay::BranchList { entries, selected, creating } => if creating is None {
                (
                    App {
                        overlay: Overlay::BranchList {
                            entries,
                            selected: if selected < entries.len().saturating_sub(1) {
                                (selected + 1) as usize
                            } else {
                                selected
                            },
                            creating,
                        },
                        ..self
                    },
                    Command::Nothing,
                )
            } else {
                (self, Command::Nothing)
            },
            Overlay::CommitDetail {
                hash,
                message,
                left_lines,
                right_lines,
                hunks,
                current_hunk,
                file_extensions,
                scroll,
                viewport_height,
                log_entries,
                log_selected,
            } => (
                App {
                    overlay: Overlay::CommitDetail {
                        hash,
                        message,
                        left_lines,
                        right_lines,
                        hunks,
                        current_hunk,
                        file_extensions,
                        scroll: if scroll < left_lines.len().saturating_sub(1) {
                            (scroll + 1) as usize
                        } else {
                            scroll
                        },
                        viewport_height,
                        log_entries,
                        log_selected,
                    },
                    ..self
                },
                Command::Nothing,
            ),
            Overlay::Rebase { entries, selected, base_hash } => (
                App {
                    overlay: Overlay::Rebase {
                        entries,
                        selected: if selected < entries.len().saturating_sub(1) {
                            (selected + 1) as usize
                        } else {
                            selected
                        },
                        base_hash,
                    },
                    ..self
                },
                Command::Nothing,
            ),
            Overlay::Confirm { .. } => (self, Command::Nothing),
            Overlay::DirtyCheckout { .. } => (self, Command::Nothing),
            Overlay::Closed => if self.active_panel == Panel::FileList {
                if self.header_selected {
                    if self.file_entries.len() > 0 {
                        (App { header_selected: false, selected_index: 0, ..self }, Command::LoadDiff)
                    } else {
                        (self, Command::Nothing)
                    }
                } else if self.file_entries.len() > 0 && self.selected_index < self.file_entries.len()
                    - 1 {
                    (App { selected_index: (self.selected_index + 1) as usize, ..self }, Command::LoadDiff)
                } else if self.file_entries.len() > 0 {
                    (
                        App {
                            header_selected: true,
                            selected_index: 0,
                            diff_state: None,
                            conflict_state: None,
                            ..self
                        },
                        Command::Nothing,
                    )
                } else {
                    (self, Command::Nothing)
                }
            } else {
                match self.conflict_state {
                    Some(cs) => (
                        App {
                            conflict_state: Some(
                                crate::conflict::ConflictState {
                                    current_section: if cs.current_section + 1 < cs.sections.len() {
                                        (cs.current_section + 1) as usize
                                    } else {
                                        cs.current_section
                                    },
                                    ..cs
                                },
                            ),
                            ..self
                        },
                        Command::Nothing,
                    ),
                    None => match self.diff_state {
                        Some(ds) => (App { diff_state: Some(ds.moved_down()), ..self }, Command::Nothing),
                        None => (self, Command::Nothing),
                    },
                }
            },
        }
    }

    /// Moving up stays inside `usize`: what moves (the message being typed,
    /// or the conflict or diff shown beside the file list) is well formed.
    /// Nothing is asked of the file list itself.
    pub open spec fn move_up_ok(self) -> bool {
        &&& self.overlay matches Overlay::CommitInput { input, .. } ==> input.wf()
        &&& (self.overlay is Closed && self.active_panel != Panel::FileList) ==> {
            &&& self.conflict_state matches Some(cs) ==> cs.wf()
            &&& self.diff_state matches Some(ds) ==> ds.move_up_ok()
        }
    }

    /// Moving down stays inside `usize`: what moves is well formed, and the
    /// log keeps its twenty rows in view. Nothing is asked of the file list.
    pub open spec fn move_down_ok(self) -> bool {
        &&& self.overlay matches Overlay::CommitInput { input, .. } ==> input.wf()
        &&& self.overlay matches Overlay::GitLog { scroll, .. } ==> scroll + 20 <= usize::MAX
        &&& (self.overlay is Closed && self.active_panel != Panel::FileList) ==> {
            &&& self.conflict_state matches Some(cs) ==> cs.wf()
            &&& self.diff_state matches Some(ds) ==> ds.move_down_ok()
        }
    }

    pub fn handle_move_up(&mut self) -> (c: Command)
        requires
            old(self).move_up_ok(),
        ensures
            move_up_post(*old(self), *final(self), c),
    {
        match &mut self.overlay {
            Overlay::GitLog { selected, scroll, .. } => {
                if *selected > 0 {
                    *selected = *selected - 1;
                    if *selected < *scroll {
                        *scroll = *selected;
                    }
                }
                return Command::Nothing;
            },
            Overlay::CommitInput { input, .. } => {
                input.move_up();
                return Command::Nothing;
            },
            Overlay::StashList { selected, .. } => {
                if *selected > 0 {
                    *selected = *selected - 1;
                }
                return Command::Nothing;
            },
            Overlay::BranchList { selected, creating, .. } => {
                if creating.is_none() && *selected > 0 {
                    *selected = *selected - 1;
                }
                return Command::Nothing;
            },
            Overlay::CommitDetail { scroll, .. } => {
                *scroll = scroll.saturating_sub(1);
                return Command::Nothing;
            },
            Overlay::Rebase { selected, .. } => {
                if *selected > 0 {
                    *selected = *selected - 1;
                }
                return Command::Nothing;
            },
            Overlay::Confirm { .. } => {
                return Command::Nothing;
            },
            Overlay::DirtyCheckout { .. } => {
                return Command::Nothing;
            },
            Overlay::Closed => {},
        }
        if self.active_panel == Panel::FileList {
            if self.header_selected {
                if self.file_entries.len() > 0 {
                    self.header_selected = false;
                    self.selected_index = self.file_entries.len() - 1;
                    return Command::LoadDiff;
                }
            } else if self.selected_index > 0 {
                self.selected_index = self.selected_index - 1;
                return Command::LoadDiff;
            } else {
                self.header_selected = true;
                self.diff_state = None;
                self.conflict_state = None;
            }
            return Command::Nothing;
        }
        if let Some(cs) = &mut self.conflict_state {
            cs.prev_section();
            return Command::Nothing;
        }
        if let Some(ds) = &mut self.diff_state {
            ds.move_up();
        }
        Command::Nothing
    }

    pub fn handle_move_down(&mut self) -> (c: Command)
        requires
            old(self).move_down_ok(),
        ensures
            move_down_post(*old(self), *final(self), c),
    {
        match &mut self.overlay {
            Overlay::GitLog { entries, selected, scroll } => {
                if *selected < entries.len().saturating_sub(1) {
                    *selected = *selected + 1;
                    if *selected >= *scroll + 20 {
                        *scroll = selected.saturating_sub(19);
                    }
                }
                return Command::Nothing;
            },
            Overlay::CommitInput { input, .. } => {
                input.move_down();
                return Command::Nothing;
            },
            Overlay::StashList { entries, selected } => {
                if *selected < entries.len().saturating_sub(1) {
                    *selected = *selected + 1;
                }
                return Command::Nothing;
            },
            Overlay::BranchList { entries, selected, creating } => {
                if creating.is_none() && *selected < entries.len().saturating_sub(1) {
                    *selected = *selected + 1;
                }
                return Command::Nothing;
            },
            Overlay::CommitDetail { left_lines, scroll, .. } => {
                if *scroll < left_lines.len().saturating_sub(1) {
                    *scroll = *scroll + 1;
                }
                return Command::Nothing;
            },
            Overlay::Rebase { entries, selected, .. } => {
                if *selected < entries.len().saturating_sub(1) {
                    *selected = *selected + 1;
                }
                return Command::Nothing;
            },
            Overlay::Confirm { .. } => {
                return Command::Nothing;
            },
            Overlay::DirtyCheckout { .. } => {
                return Command::Nothing;
            },
            Overlay::Closed => {},
        }
        if self.active_panel == Panel::FileList {
            if self.header_selected {
                if self.file_entries.len() > 0 {
                    self.header_selected = false;
                    self.selected_index = 0;
                    return Command::LoadDiff;
                }
            } else if self.file_entries.len() > 0 && self.selected_index < self.file_entries.len() - 1 {
                self.selected_index = self.selected_index + 1;
                return Command::LoadDiff;
            } else if self.file_entries.len() > 0 {
                self.header_selected = true;
                self.selected_index = 0;
                self.diff_state = None;
                self.conflict_state = None;
            }
            return Command::Nothing;
        }
        if let Some(cs) = &mut self.conflict_state {
            cs.next_section();
            return Command::Nothing;
        }
        if let Some(ds) = &mut self.diff_state {
            ds.move_down();
        }
        Command::Nothing
    }
}

/// Law: in the file list with no popup open, moving up and then down
/// returns to the same place, the header or the same file (up from the
/// header wraps to the last file, down from the last file wraps to the
/// header). Both moves can be made there: `handle_move_up` and
/// `handle_move_down` ask nothing of such a state, as the law shows.
pub proof fn law_file_list_up_then_down(app: App)
    requires
        app.overlay is Closed,
        app.active_panel == Panel::FileList,
        app.file_entries.len() > 0,
        if app.header_selected {
            app.selected_index == 0
        } else {
            app.selected_index < app.file_entries.len()
        },
    ensures
        app.move_up_ok(),
        app.moved_up().0.move_down_ok(),
        app.moved_up().0.moved_down().0.header_selected == app.header_selected,
        app.moved_up().0.moved_down().0.selected_index == app.selected_index,
{
}

} // verus!
