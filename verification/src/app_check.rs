//! Checking, before a message is handled, that handling it is defined.
use vstd::prelude::*;

use crate::app::{App, DiffState, DiffViewMode, Message, Overlay, Panel};
use crate::app_lines::collect_changed;
use crate::app_nav::{keep_visible_ok, position_of};
use crate::app_popups::overlay_wf;
use crate::diff::changed_rows_in_hunk;

verus! {

fn keep_visible_fits(cursor: usize, scroll: usize, height: usize) -> (b: bool)
    ensures
        b == keep_visible_ok(cursor, scroll, height),
{
    let m = height / 3;
    if scroll > usize::MAX - m {
        return false;
    }
    cursor < scroll + m || scroll <= usize::MAX - height.saturating_sub(m)
}

impl DiffState {
    /// Whether the diff keeps its invariant.
    pub fn check_wf(&self) -> (b: bool)
        ensures
            b == self.wf(),
    {
        if self.left_lines.len() != self.right_lines.len() {
            return false;
        }
        let mut i: usize = 0;
        while i < self.hunks.len()
            invariant
                i <= self.hunks.len(),
                forall|j: int|
                    0 <= j < i ==> (#[trigger] self.hunks[j]).display_start <= self.hunks[j].display_end
                        <= self.left_lines.len(),
            decreases self.hunks.len() - i,
        {
            let h = self.hunks[i];
            if !(h.display_start <= h.display_end && h.display_end <= self.left_lines.len()) {
                return false;
            }
            i = i + 1;
        }
        self.hunks.len() == 0 || self.current_hunk < self.hunks.len()
    }

    fn check_move_up(&self) -> (b: bool)
        ensures
            b == self.move_up_ok(),
    {
        match self.view_mode {
            DiffViewMode::HunkNav => self.scroll.saturating_sub(1) <= usize::MAX - self.viewport_height / 3,
            DiffViewMode::LineNav => {
                proof {
                    crate::app_nav::lemma_first_pos_bound(self.hunk_changed_rows@, self.cursor_line);
                }
                match position_of(&self.hunk_changed_rows, self.cursor_line) {
                    Some(p) => if p > 0 {
                        keep_visible_fits(self.hunk_changed_rows[p - 1], self.scroll, self.viewport_height)
                    } else {
                        true
                    },
                    None => true,
                }
            },
        }
    }

    fn check_move_down(&self) -> (b: bool)
        ensures
            b == self.move_down_ok(),
    {
        match self.view_mode {
            DiffViewMode::HunkNav => {
                let s = if self.scroll < self.max_scroll {
                    self.scroll + 1
                } else {
                    self.scroll
                };
                s <= usize::MAX - self.viewport_height / 3
            },
            DiffViewMode::LineNav => {
                proof {
                    crate::app_nav::lemma_first_pos_bound(self.hunk_changed_rows@, self.cursor_line);
                }
                match position_of(&self.hunk_changed_rows, self.cursor_line) {
                    Some(p) => if p + 1 < self.hunk_changed_rows.len() {
                        keep_visible_fits(self.hunk_changed_rows[p + 1], self.scroll, self.viewport_height)
                    } else {
                        true
                    },
                    None => true,
                }
            },
        }
    }

    fn check_enter_line_mode(&self) -> (b: bool)
        requires
            self.wf(),
        ensures
            b == (self.hunks.len() > 0 && self.changed_all().len() > 0 ==> keep_visible_ok(
                self.line_mode_cursor(),
                self.scroll,
                self.viewport_height,
            )),
    {
        if self.hunks.len() == 0 {
            return true;
        }
        let all = collect_changed(self);
        if all.len() == 0 {
            return true;
        }
        let cursor = match &self.saved_line_selection {
            Some(saved) => saved.2,
            None => {
                let rows = changed_rows_in_hunk(&self.hunks[self.current_hunk], self.left_lines.as_slice());
                if rows.len() > 0 {
                    rows[0]
                } else {
                    all[0]
                }
            },
        };
        keep_visible_fits(cursor, self.scroll, self.viewport_height)
    }
}

fn check_overlay(o: &Overlay) -> (b: bool)
    ensures
        b == overlay_wf(*o),
{
    match o {
        Overlay::Rebase { entries, selected, .. } => *selected < entries.len(),
        Overlay::GitLog { entries, selected, .. } => *selected == 0 || *selected < entries.len(),
        Overlay::CommitInput { input, .. } => input.lines.len() > 0 && input.cursor_row < input.lines.len(),
        Overlay::CommitDetail { hunks, current_hunk, log_entries, log_selected, .. } => *log_selected
            < log_entries.len() && (hunks.len() == 0 || *current_hunk < hunks.len()),
        _ => true,
    }
}

impl App {
    /// Whether the state keeps its invariant.
    pub fn check_wf(&self) -> (b: bool)
        ensures
            b == self.wf(),
    {
        let d = match &self.diff_state {
            Some(ds) => ds.check_wf(),
            None => true,
        };
        let c = match &self.conflict_state {
            Some(cs) => cs.current_section < cs.sections.len(),
            None => true,
        };
        d && c && check_overlay(&self.overlay)
    }

    /// Whether `update` may be called with `msg` (its `requires`).
    pub fn accepts(&self, msg: Message) -> (b: bool)
        ensures
            b == self.update_ok(msg),
    {
        if !self.check_wf() {
            return false;
        }
        match msg {
            Message::MoveUp => {
                let moves_view = matches!(self.overlay, Overlay::Closed) && self.active_panel != Panel::FileList;
                !moves_view || match &self.diff_state {
                    Some(ds) => ds.check_move_up(),
                    None => true,
                }
            },
            Message::MoveDown => {
                let log_ok = match &self.overlay {
                    Overlay::GitLog { scroll, .. } => *scroll <= usize::MAX - 20,
                    _ => true,
                };
                let moves_view = matches!(self.overlay, Overlay::Closed) && self.active_panel != Panel::FileList;
                log_ok && (!moves_view || match &self.diff_state {
                    Some(ds) => ds.check_move_down(),
                    None => true,
                })
            },
            Message::ScrollRight => match &self.diff_state {
                Some(ds) => ds.h_scroll <= usize::MAX - 4,
                None => true,
            },
            Message::EnterLineMode => match &self.diff_state {
                Some(ds) => ds.check_enter_line_mode(),
                None => true,
            },
            _ => true,
        }
    }
}

} // verus!
