//! Hunk and line navigation inside the diff: the current hunk, the
//! horizontal scroll, line mode and the selected lines.
use vstd::prelude::*;
use std::collections::BTreeSet;

use crate::app::{focus_scroll, visible_scroll, App, DiffState, DiffViewMode, EditorRequest};
use crate::app_nav::keep_visible_ok;
use crate::diff::{changed_rows, changed_rows_in_hunk, DiffLine, DiffLineKind, Hunk, RowModel};

verus! {

broadcast use vstd::std_specs::btree::group_btree_axioms, vstd::laws_cmp::group_laws_cmp;

/// The changed rows of every hunk, hunk after hunk.
pub open spec fn all_changed(rows: Seq<RowModel>, hunks: Seq<Hunk>) -> Seq<usize>
    decreases hunks.len(),
{
    if hunks.len() == 0 {
        Seq::empty()
    } else {
        all_changed(rows, hunks.drop_last()) + changed_rows(
            rows,
            hunks.last().display_start as int,
            hunks.last().display_end as int,
        )
    }
}

/// `s` with `r` added if absent, removed if present.
pub open spec fn toggled(s: Set<usize>, r: usize) -> Set<usize> {
    if s.contains(r) {
        s.remove(r)
    } else {
        s.insert(r)
    }
}

/// Toggling a row twice gives the selection back.
pub proof fn law_toggle_twice(s: Set<usize>, r: usize)
    ensures
        toggled(toggled(s, r), r) == s,
{
    assert(toggled(toggled(s, r), r) =~= s);
}

/// The rows of `v`, as a set.
pub open spec fn rows_set(v: Seq<usize>) -> Set<usize> {
    Set::new(|r: usize| v.contains(r))
}

/// Number of rows among the first `n` of `rows` that hold a line of the
/// file (not a spacer).
pub open spec fn text_rows_before(rows: Seq<RowModel>, n: int) -> nat
    decreases n,
{
    if n <= 0 || rows.len() == 0 {
        0
    } else if n > rows.len() {
        text_rows_before(rows, rows.len() as int)
    } else {
        text_rows_before(rows, n - 1) + if rows[n - 1].1 != DiffLineKind::Spacer {
            1nat
        } else {
            0nat
        }
    }
}

impl DiffState {
    pub open spec fn left_rows(self) -> Seq<RowModel> {
        self.left_lines@.map_values(|d: DiffLine| d.model())
    }

    pub open spec fn right_rows(self) -> Seq<RowModel> {
        self.right_lines@.map_values(|d: DiffLine| d.model())
    }

    /// Every changed row of the diff.
    pub open spec fn changed_all(self) -> Seq<usize> {
        all_changed(self.left_rows(), self.hunks@)
    }

    /// The previous hunk made current and scrolled to.
    pub open spec fn prev_hunk_state(self) -> DiffState {
        if self.hunks.len() > 0 && self.current_hunk > 0 {
            let k = (self.current_hunk - 1) as usize;
            DiffState {
                current_hunk: k,
                scroll: focus_scroll(self.hunks@[k as int].display_start, self.viewport_height),
                ..self
            }
        } else {
            self
        }
    }

    /// The next hunk made current and scrolled to.
    pub open spec fn next_hunk_state(self) -> DiffState {
        if self.hunks.len() > 0 && self.current_hunk + 1 < self.hunks.len() {
            let k = (self.current_hunk + 1) as usize;
            DiffState {
                current_hunk: k,
                scroll: focus_scroll(self.hunks@[k as int].display_start, self.viewport_height),
                ..self
            }
        } else {
            self
        }
    }

    /// The cursor line mode starts at: the saved one, else the first changed
    /// row of the current hunk, else the first changed row.
    pub open spec fn line_mode_cursor(self) -> usize {
        match self.saved_line_selection {
            Some(saved) => saved.2,
            None => {
                let h = self.hunks@[self.current_hunk as int];
                let rows = changed_rows(self.left_rows(), h.display_start as int, h.display_end as int);
                if rows.len() > 0 {
                    rows[0]
                } else {
                    self.changed_all()[0]
                }
            },
        }
    }

    /// `d2` is this diff switched to line mode (when it has changed rows).
    pub open spec fn entered_line_mode(self, d2: DiffState) -> bool {
        let cur = self.line_mode_cursor();
        &&& match self.saved_line_selection {
            Some(saved) => d2.selected_lines == saved.1,
            None => d2.selected_lines@ == Set::<usize>::empty(),
        }
        &&& d2.hunk_changed_rows@ == self.changed_all()
        &&& d2 == (DiffState {
            selected_lines: d2.selected_lines,
            hunk_changed_rows: d2.hunk_changed_rows,
            saved_line_selection: None,
            cursor_line: cur,
            view_mode: DiffViewMode::LineNav,
            scroll: visible_scroll(cur, self.scroll, self.viewport_height),
            ..self
        })
    }

    /// `d2` is this diff back in hunk mode, the line selection remembered.
    pub open spec fn exited_line_mode(self, d2: DiffState) -> bool {
        &&& d2.selected_lines@ == Set::<usize>::empty()
        &&& d2.saved_line_selection matches Some(saved) && saved.0 == self.current_hunk
            && saved.1@ == self.selected_lines@ && saved.2 == self.cursor_line
        &&& d2 == (DiffState {
            selected_lines: d2.selected_lines,
            saved_line_selection: d2.saved_line_selection,
            view_mode: DiffViewMode::HunkNav,
            scroll: if self.current_hunk < self.hunks.len() {
                focus_scroll(self.hunks@[self.current_hunk as int].display_start, self.viewport_height)
            } else {
                0
            },
            ..self
        })
    }

    /// `d2` is this diff with only its selected lines changed, to `sel`.
    pub open spec fn with_selection(self, d2: DiffState, sel: Set<usize>) -> bool {
        &&& d2.selected_lines@ == sel
        &&& d2 == (DiffState { selected_lines: d2.selected_lines, ..self })
    }
}

/// Leaving line mode and entering it again brings back the selection and
/// the cursor.
pub proof fn law_line_selection_restored(ds: DiffState, d1: DiffState, d2: DiffState)
    requires
        ds.hunks.len() > 0,
        ds.changed_all().len() > 0,
        ds.exited_line_mode(d1),
        d1.entered_line_mode(d2),
    ensures
        d2.selected_lines@ == ds.selected_lines@,
        d2.cursor_line == ds.cursor_line,
        d2.view_mode == DiffViewMode::LineNav,
{
}

/// Concatenate the changed rows of every hunk.
pub fn collect_changed(ds: &DiffState) -> (v: Vec<usize>)
    requires
        ds.wf(),
    ensures
        v@ == ds.changed_all(),
{
    let mut v: Vec<usize> = Vec::new();
    let mut i: usize = 0;
    while i < ds.hunks.len()
        invariant
            i <= ds.hunks.len(),
            ds.wf(),
            v@ == all_changed(ds.left_rows(), ds.hunks@.take(i as int)),
        decreases ds.hunks.len() - i,
    {
        let rows = changed_rows_in_hunk(&ds.hunks[i], ds.left_lines.as_slice());
        let mut rows = rows;
        let ghost before = v@;
        let ghost rs = rows@;
        v.append(&mut rows);
        assert(ds.hunks@.take(i + 1).drop_last() =~= ds.hunks@.take(i as int));
        assert(v@ =~= before + rs);
        i = i + 1;
    }
    assert(ds.hunks@.take(ds.hunks.len() as int) =~= ds.hunks@);
    v
}

impl DiffState {
    fn prev_hunk(&mut self)
        requires
            old(self).wf(),
        ensures
            *final(self) == old(self).prev_hunk_state(),
    {
        if self.hunks.len() > 0 && self.current_hunk > 0 {
            self.current_hunk = self.current_hunk - 1;
            let start = self.hunks[self.current_hunk].display_start;
            self.scroll = start.saturating_sub(self.viewport_height / 3);
        }
    }

    fn next_hunk(&mut self)
        ensures
            *final(self) == old(self).next_hunk_state(),
    {
        if self.hunks.len() > 0 && self.current_hunk < self.hunks.len() - 1 {
            self.current_hunk = self.current_hunk + 1;
            let start = self.hunks[self.current_hunk].display_start;
            self.scroll = start.saturating_sub(self.viewport_height / 3);
        }
    }

    fn enter_line_mode(&mut self) -> (entered: bool)
        requires
            old(self).wf(),
            old(self).hunks.len() > 0 && old(self).changed_all().len() > 0 ==> keep_visible_ok(
                old(self).line_mode_cursor(),
                old(self).scroll,
                old(self).viewport_height,
            ),
        ensures
            entered == (old(self).hunks.len() > 0 && old(self).changed_all().len() > 0),
            entered ==> old(self).entered_line_mode(*final(self)),
            !entered ==> *final(self) == *old(self),
    {
        if self.hunks.len() == 0 {
            return false;
        }
        let all_changed = collect_changed(self);
        if all_changed.len() == 0 {
            return false;
        }
        let ghost before = *self;
        let mut saved: Option<(usize, BTreeSet<usize>, usize)> = None;
        std::mem::swap(&mut saved, &mut self.saved_line_selection);
        match saved {
            Some((_saved_hunk, saved_sel, saved_cursor)) => {
                self.selected_lines = saved_sel;
                self.cursor_line = saved_cursor;
            },
            None => {
                self.selected_lines.clear();
                let hunk_rows = changed_rows_in_hunk(
                    &self.hunks[self.current_hunk],
                    self.left_lines.as_slice(),
                );
                self.cursor_line = if hunk_rows.len() > 0 {
                    hunk_rows[0]
                } else {
                    all_changed[0]
                };
            },
        }
        self.hunk_changed_rows = all_changed;
        self.view_mode = DiffViewMode::LineNav;
        App::keep_cursor_visible(self);
        true
    }

    fn exit_line_mode(&mut self)
        ensures
            old(self).exited_line_mode(*final(self)),
    {
        self.saved_line_selection = Some(
            (self.current_hunk, self.selected_lines.clone(), self.cursor_line),
        );
        self.view_mode = DiffViewMode::HunkNav;
        self.selected_lines.clear();
        let offset = self.viewport_height / 3;
        self.scroll = if self.current_hunk < self.hunks.len() {
            self.hunks[self.current_hunk].display_start.saturating_sub(offset)
        } else {
            0
        };
    }

    fn toggle_line(&mut self)
        ensures
            old(self).with_selection(*final(self), toggled(old(self).selected_lines@, old(self).cursor_line)),
    {
        let row = self.cursor_line;
        if self.selected_lines.contains(&row) {
            self.selected_lines.remove(&row);
        } else {
            self.selected_lines.insert(row);
        }
    }

    fn select_all(&mut self)
        ensures
            old(self).with_selection(
                *final(self),
                if old(self).selected_lines@.len() == old(self).hunk_changed_rows.len() {
                    Set::<usize>::empty()
                } else {
                    rows_set(old(self).hunk_changed_rows@)
                },
            ),
    {
        if self.selected_lines.len() == self.hunk_changed_rows.len() {
            self.selected_lines.clear();
        } else {
            let mut set: BTreeSet<usize> = BTreeSet::new();
            let mut i: usize = 0;
            while i < self.hunk_changed_rows.len()
                invariant
                    i <= self.hunk_changed_rows.len(),
                    set@ == rows_set(self.hunk_changed_rows@.take(i as int)),
                decreases self.hunk_changed_rows.len() - i,
            {
                let ghost before = set@;
                let x = self.hunk_changed_rows[i];
                set.insert(x);
                assert(set@ == before.insert(x));
                let ghost t0 = self.hunk_changed_rows@.take(i as int);
                let ghost t1 = self.hunk_changed_rows@.take(i + 1);
                assert(t1 =~= t0.push(x));
                assert forall|r: usize| t1.contains(r) <==> (t0.contains(r) || r == x) by {
                    if t1.contains(r) {
                        let j = choose|j: int| 0 <= j < t1.len() && t1[j] == r;
                        if j < t0.len() {
                            assert(t0[j] == r);
                        }
                    }
                    if t0.contains(r) {
                        let j = choose|j: int| 0 <= j < t0.len() && t0[j] == r;
                        assert(t1[j] == r);
                    }
                    if r == x {
                        assert(t1[i as int] == r);
                    }
                }
                assert(set@ =~= rows_set(t1));
                i = i + 1;
            }
            assert(self.hunk_changed_rows@.take(self.hunk_changed_rows.len() as int)
                =~= self.hunk_changed_rows@);
            assert(set@ =~= rows_set(self.hunk_changed_rows@));
            self.selected_lines = set;
        }
    }
}

/// The editor line for a display row: how many rows before it hold a line
/// of the new file, at least one.
pub fn file_line_for_row(right_lines: &Vec<DiffLine>, target_row: usize) -> (n: usize)
    ensures
        n == (if text_rows_before(right_lines@.map_values(|d: DiffLine| d.model()), target_row as int)
            > 1 {
            text_rows_before(right_lines@.map_values(|d: DiffLine| d.model()), target_row as int)
        } else {
            1
        }),
{
    let ghost rows = right_lines@.map_values(|d: DiffLine| d.model());
    let mut file_line: usize = 0;
    let mut i: usize = 0;
    while i < right_lines.len() && i < target_row
        invariant
            i <= right_lines.len(),
            i <= target_row,
            rows == right_lines@.map_values(|d: DiffLine| d.model()),
            file_line == text_rows_before(rows, i as int),
            file_line <= i,
        decreases right_lines.len() - i,
    {
        if right_lines[i].kind != DiffLineKind::Spacer {
            file_line = file_line + 1;
        }
        i = i + 1;
    }
    proof {
        if i < target_row {
            assert(i == right_lines.len());
            assert(text_rows_before(rows, target_row as int) == text_rows_before(rows, i as int));
        }
    }
    if file_line > 1 {
        file_line
    } else {
        1
    }
}

/// The row the editor opens at: the cursor in line mode, else the start of
/// the current hunk, else the top of the view.
pub open spec fn edit_target(ds: DiffState) -> usize {
    if ds.view_mode == DiffViewMode::LineNav {
        ds.cursor_line
    } else if ds.current_hunk < ds.hunks.len() {
        ds.hunks@[ds.current_hunk as int].display_start
    } else {
        ds.scroll
    }
}

/// Lines of the file before display row `row`, at least one.
pub open spec fn editor_line(ds: DiffState, row: usize) -> nat {
    let n = text_rows_before(ds.right_rows(), row as int);
    if n > 1 {
        n
    } else {
        1
    }
}

/// What `handle_prev_hunk` does.
pub open spec fn prev_hunk_post(o: App, n: App) -> bool {
    &&& (n == (App {
        diff_state: match o.diff_state {
            Some(ds) => Some(ds.prev_hunk_state()),
            None => None,
        },
        ..o
    }))
}

/// What `handle_next_hunk` does.
pub open spec fn next_hunk_post(o: App, n: App) -> bool {
    &&& (n == (App {
        diff_state: match o.diff_state {
            Some(ds) => Some(ds.next_hunk_state()),
            None => None,
        },
        ..o
    }))
}

/// Four columns left, stopping at the first column.
pub open spec fn scroll_left_post(o: App, n: App) -> bool {
    &&& (n == (App {
        diff_state: match o.diff_state {
            Some(ds) => Some(DiffState { h_scroll: ds.h_scroll.saturating_sub(4), ..ds }),
            None => None,
        },
        ..o
    }))
}

/// Four columns right.
pub open spec fn scroll_right_post(o: App, n: App) -> bool {
    &&& (n == (App {
        diff_state: match o.diff_state {
            Some(ds) => Some(DiffState { h_scroll: (ds.h_scroll + 4) as usize, ..ds }),
            None => None,
        },
        ..o
    }))
}

/// Switch between the file list and the diff. Leaving the diff drops
/// line mode and its selection; with the header selected the file list
/// keeps the focus.
pub open spec fn switch_panel_post(o: App, n: App) -> bool {
    &&& (n == (App {
        diff_state: n.diff_state,
        active_panel: n.active_panel,
        ..o
    }))
    &&& (n.active_panel == (if o.header_selected && o.active_panel
        == crate::app::Panel::FileList {
        crate::app::Panel::FileList
    } else if o.active_panel == crate::app::Panel::FileList {
        crate::app::Panel::DiffView
    } else {
        crate::app::Panel::FileList
    }))
    &&& (match o.diff_state {
        Some(ds) => if o.active_panel == crate::app::Panel::DiffView {
            n.diff_state matches Some(d2) && ds.with_selection(
                DiffState { view_mode: ds.view_mode, ..d2 },
                Set::<usize>::empty(),
            ) && d2.view_mode == DiffViewMode::HunkNav
        } else {
            n.diff_state == o.diff_state
        },
        None => n.diff_state is None,
    })
}

/// Line mode: select changed lines one by one. The selection and cursor
/// saved when line mode was last left come back.
pub open spec fn enter_line_mode_post(o: App, n: App) -> bool {
    &&& (match o.diff_state {
        Some(ds) => if ds.hunks.len() > 0 && ds.changed_all().len() > 0 {
            &&& n.diff_state matches Some(d2) && ds.entered_line_mode(d2)
            &&& n == (App {
                diff_state: n.diff_state,
                status_message: None,
                ..o
            })
        } else {
            n == o
        },
        None => n == o,
    })
}

/// Back to hunk mode, remembering the line selection.
pub open spec fn exit_line_mode_post(o: App, n: App) -> bool {
    &&& (match o.diff_state {
        Some(ds) => {
            &&& n.diff_state matches Some(d2) && ds.exited_line_mode(d2)
            &&& n == (App {
                diff_state: n.diff_state,
                status_message: None,
                ..o
            })
        },
        None => n == o,
    })
}

/// In line mode, select or unselect the row under the cursor.
pub open spec fn toggle_line_post(o: App, n: App) -> bool {
    &&& (match o.diff_state {
        Some(ds) => if ds.view_mode == DiffViewMode::LineNav {
            &&& n.diff_state matches Some(d2) && ds.with_selection(
                d2,
                toggled(ds.selected_lines@, ds.cursor_line),
            )
            &&& n == (App { diff_state: n.diff_state, ..o })
        } else {
            n == o
        },
        None => n == o,
    })
}

/// In line mode, select every changed row, or none when all are selected.
pub open spec fn select_all_lines_post(o: App, n: App) -> bool {
    &&& (match o.diff_state {
        Some(ds) => if ds.view_mode == DiffViewMode::LineNav {
            &&& n.diff_state matches Some(d2) && ds.with_selection(
                d2,
                if ds.selected_lines@.len() == ds.hunk_changed_rows.len() {
                    Set::<usize>::empty()
                } else {
                    rows_set(ds.hunk_changed_rows@)
                },
            )
            &&& n == (App { diff_state: n.diff_state, ..o })
        } else {
            n == o
        },
        None => n == o,
    })
}

/// Ask for the editor at the line under the cursor (or the current hunk).
pub open spec fn enter_edit_mode_post(o: App, n: App) -> bool {
    &&& (match o.diff_state {
        Some(ds) => {
            &&& n.pending_editor matches Some(req) && req.file_path == ds.file_path
                && req.line_number == editor_line(ds, edit_target(ds))
            &&& n == (App { pending_editor: n.pending_editor, ..o })
        },
        None => {
            &&& n.status_message matches Some(m) && m@
                == "Select a file first (Enter on file list)"@
            &&& n == (App { status_message: n.status_message, ..o })
        },
    })
}

impl App {
    /// Every diff inside the state keeps its invariant.
    pub open spec fn diff_wf(self) -> bool {
        self.diff_state matches Some(ds) ==> ds.wf()
    }

    pub fn handle_prev_hunk(&mut self)
        requires
            old(self).diff_wf(),
        ensures
            prev_hunk_post(*old(self), *final(self)),
    {
        if let Some(ds) = &mut self.diff_state {
            ds.prev_hunk();
        }
    }

    pub fn handle_next_hunk(&mut self)
        ensures
            next_hunk_post(*old(self), *final(self)),
    {
        if let Some(ds) = &mut self.diff_state {
            ds.next_hunk();
        }
    }

    /// Four columns left, stopping at the first column.
    pub fn handle_scroll_left(&mut self)
        ensures
            scroll_left_post(*old(self), *final(self)),
    {
        if let Some(ds) = &mut self.diff_state {
            ds.h_scroll = ds.h_scroll.saturating_sub(4);
        }
    }

    /// Four columns right.
    pub fn handle_scroll_right(&mut self)
        requires
            old(self).diff_state matches Some(ds) ==> ds.h_scroll + 4 <= usize::MAX,
        ensures
            scroll_right_post(*old(self), *final(self)),
    {
        if let Some(ds) = &mut self.diff_state {
            ds.h_scroll = ds.h_scroll + 4;
        }
    }

    /// Switch between the file list and the diff. Leaving the diff drops
    /// line mode and its selection; with the header selected the file list
    /// keeps the focus.
    pub fn handle_switch_panel(&mut self)
        ensures
            switch_panel_post(*old(self), *final(self)),
    {
        if self.active_panel == crate::app::Panel::DiffView {
            if let Some(ds) = &mut self.diff_state {
                ds.view_mode = DiffViewMode::HunkNav;
                ds.selected_lines.clear();
            }
        }
        if self.header_selected && self.active_panel == crate::app::Panel::FileList {
            return;
        }
        self.active_panel = match self.active_panel {
            crate::app::Panel::FileList => crate::app::Panel::DiffView,
            crate::app::Panel::DiffView => crate::app::Panel::FileList,
        };
    }

    /// Line mode: select changed lines one by one. The selection and cursor
    /// saved when line mode was last left come back.
    pub fn handle_enter_line_mode(&mut self)
        requires
            old(self).diff_wf(),
            old(self).diff_state matches Some(ds) ==> (ds.hunks.len() > 0 && ds.changed_all().len()
                > 0 ==> keep_visible_ok(ds.line_mode_cursor(), ds.scroll, ds.viewport_height)),
        ensures
            enter_line_mode_post(*old(self), *final(self)),
    {
        let mut entered = false;
        if let Some(ds) = &mut self.diff_state {
            entered = ds.enter_line_mode();
        }
        if entered {
            self.status_message = None;
        }
    }

    /// Back to hunk mode, remembering the line selection.
    pub fn handle_exit_line_mode(&mut self)
        ensures
            exit_line_mode_post(*old(self), *final(self)),
    {
        let mut exited = false;
        if let Some(ds) = &mut self.diff_state {
            ds.exit_line_mode();
            exited = true;
        }
        if exited {
            self.status_message = None;
        }
    }

    /// In line mode, select or unselect the row under the cursor.
    pub fn handle_toggle_line(&mut self)
        ensures
            toggle_line_post(*old(self), *final(self)),
    {
        if let Some(ds) = &mut self.diff_state {
            if ds.view_mode == DiffViewMode::LineNav {
                ds.toggle_line();
            }
        }
    }

    /// In line mode, select every changed row, or none when all are selected.
    pub fn handle_select_all_lines(&mut self)
        ensures
            select_all_lines_post(*old(self), *final(self)),
    {
        if let Some(ds) = &mut self.diff_state {
            if ds.view_mode == DiffViewMode::LineNav {
                ds.select_all();
            }
        }
    }

    /// Ask for the editor at the line under the cursor (or the current hunk).
    pub fn handle_enter_edit_mode(&mut self)
        ensures
            enter_edit_mode_post(*old(self), *final(self)),
    {
        match &self.diff_state {
            Some(ds) => {
                let target = if ds.view_mode == DiffViewMode::LineNav {
                    ds.cursor_line
                } else if ds.current_hunk < ds.hunks.len() {
                    ds.hunks[ds.current_hunk].display_start
                } else {
                    ds.scroll
                };
                let line_number = file_line_for_row(&ds.right_lines, target);
                let file_path = ds.file_path.clone();
                self.pending_editor = Some(EditorRequest { file_path, line_number });
            },
            None => {
                self.status_message = Some(String::from_str("Select a file first (Enter on file list)"));
            },
        }
    }
}

} // verus!
