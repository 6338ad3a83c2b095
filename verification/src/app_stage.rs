//! Staging files, hunks and lines, committing, saving a resolved conflict,
//! and what the clipboard gets.
use vstd::prelude::*;
use std::collections::BTreeSet;

use crate::app::{App, Command, DiffState, DiffViewMode, Overlay, PendingAction, Panel};
use crate::app_lines::rows_set;
use crate::conflict::{resolved_sections, unresolved_in};
use crate::diff::{
    apply_hunk, apply_lines, hunk_result, lemma_lines_all, lemma_lines_none, line_diff, lines_result, new_side, old_side,
    row_set, ChangeTag, DiffLine, DiffLineKind, RowModel,
};
use crate::status::{FileEntry, FileStatus};
use crate::text::{
    chars_of, concat2, concat3, contains_sub, dec_digits, file_text, has_sub, lowercase,
    push_decimal, split_words, to_lower, words,
};
use crate::text_input::join_with_nl;
use crate::theme::Theme;
use crate::which_key::selected_entry;
use vstd::string::StrSliceExecFns;

verus! {

broadcast use vstd::std_specs::btree::group_btree_axioms, vstd::laws_cmp::group_laws_cmp;

/// The rows line staging applies: the selected rows; for a staged file
/// (where the selection is what to unstage) every other changed row.
pub open spec fn rows_to_apply(ds: DiffState) -> Set<usize> {
    if ds.is_staged {
        rows_set(ds.hunk_changed_rows@).difference(ds.selected_lines@)
    } else {
        ds.selected_lines@
    }
}

/// The contents of the rows of `rows` whose index is in `sel`, in order.
pub open spec fn contents_in(rows: Seq<RowModel>, sel: Set<usize>) -> Seq<Seq<char>>
    decreases rows.len(),
{
    if rows.len() == 0 {
        Seq::empty()
    } else {
        contents_in(rows.drop_last(), sel) + if sel.contains((rows.len() - 1) as usize) {
            seq![rows.last().0]
        } else {
            Seq::empty()
        }
    }
}

/// The contents of the rows `a..b` that hold a line of the new file.
pub open spec fn new_contents(rows: Seq<RowModel>, a: int, b: int) -> Seq<Seq<char>>
    decreases b - a,
{
    if b <= a {
        Seq::empty()
    } else {
        new_contents(rows, a, b - 1) + if rows[b - 1].1 == DiffLineKind::Added || rows[b - 1].1
            == DiffLineKind::Equal {
            seq![rows[b - 1].0]
        } else {
            Seq::empty()
        }
    }
}

/// What the clipboard gets from a diff: in line mode the selected lines (or
/// the cursor's line); by hunks the new side of the current hunk.
pub open spec fn diff_yank(ds: DiffState) -> Option<Seq<char>> {
    let rights = ds.right_lines@.map_values(|d: DiffLine| d.model());
    if ds.view_mode == DiffViewMode::LineNav {
        let lines = if ds.selected_lines@.is_empty() {
            contents_in(rights, set![ds.cursor_line])
        } else {
            contents_in(rights, ds.selected_lines@)
        };
        if lines.len() > 0 {
            Some(join_with_nl(lines))
        } else {
            None
        }
    } else if ds.current_hunk < ds.hunks.len() {
        let h = ds.hunks@[ds.current_hunk as int];
        let lines = new_contents(rights, h.display_start as int, h.display_end as int);
        if lines.len() > 0 {
            Some(join_with_nl(lines))
        } else {
            None
        }
    } else {
        None
    }
}

/// What the clipboard gets: the selected commit's hash in the log, else the
/// diff's lines, else the selected file's path.
pub open spec fn yank_text(app: App) -> Option<Seq<char>> {
    match app.overlay {
        Overlay::GitLog { entries, selected, .. } => if selected < entries.len() {
            Some(entries[selected as int].hash@)
        } else {
            None
        },
        _ => {
            let from_diff = match app.diff_state {
                Some(ds) => diff_yank(ds),
                None => None,
            };
            match from_diff {
                Some(t) => Some(t),
                None => match selected_entry(app) {
                    Some(e) => Some(e.path@),
                    None => None,
                },
            }
        },
    }
}

/// Whether a path passes the file filter: no filter, an empty one, or every
/// word of the filter occurring in the path, case ignored.
pub open spec fn passes_filter(path: Seq<char>, filter: Option<String>) -> bool {
    match filter {
        None => true,
        Some(f) => f@.len() == 0 || forall|k: int|
            0 <= k < words(lowercase(f@)).len() ==> has_sub(
                lowercase(path),
                #[trigger] words(lowercase(f@))[k],
            ),
    }
}

/// The indices of the entries that pass the filter, in order.
pub open spec fn filtered_indices(es: Seq<FileEntry>, filter: Option<String>) -> Seq<usize>
    decreases es.len(),
{
    if es.len() == 0 {
        Seq::empty()
    } else {
        filtered_indices(es.drop_last(), filter) + if passes_filter(es.last().path@, filter) {
            seq![(es.len() - 1) as usize]
        } else {
            Seq::empty()
        }
    }
}

fn join_rows(lines: &Vec<String>) -> (s: String)
    ensures
        s@ == join_with_nl(lines.deep_view()),
{
    let mut s = String::new();
    if lines.len() == 0 {
        assert(lines.deep_view() =~= Seq::<Seq<char>>::empty());
        return s;
    }
    s.push_str(lines[0].as_str());
    assert(lines.deep_view().take(1) =~= seq![lines.deep_view()[0]]);
    let mut i: usize = 1;
    while i < lines.len()
        invariant
            1 <= i <= lines.len(),
            s@ == join_with_nl(lines.deep_view().take(i as int)),
        decreases lines.len() - i,
    {
        s.push('\n');
        s.push_str(lines[i].as_str());
        assert(lines.deep_view().take(i + 1).drop_last() =~= lines.deep_view().take(i as int));
        assert(s@ =~= join_with_nl(lines.deep_view().take(i as int)) + seq!['\n']
            + lines.deep_view()[i as int]);
        i = i + 1;
    }
    assert(lines.deep_view().take(lines.len() as int) =~= lines.deep_view());
    s
}

fn diff_yank_text(ds: &DiffState) -> (r: Option<String>)
    requires
        ds.wf(),
    ensures
        match r {
            Some(s) => diff_yank(*ds) == Some(s@),
            None => diff_yank(*ds) is None,
        },
{
    let ghost rights = ds.right_lines@.map_values(|d: DiffLine| d.model());
    let mut lines: Vec<String> = Vec::new();
    if ds.view_mode == DiffViewMode::LineNav {
        let use_cursor = ds.selected_lines.is_empty();
        let ghost sel = if use_cursor {
            set![ds.cursor_line]
        } else {
            ds.selected_lines@
        };
        let mut i: usize = 0;
        while i < ds.right_lines.len()
            invariant
                i <= ds.right_lines.len(),
                rights == ds.right_lines@.map_values(|d: DiffLine| d.model()),
                use_cursor == ds.selected_lines@.is_empty(),
                sel == (if use_cursor {
                    set![ds.cursor_line]
                } else {
                    ds.selected_lines@
                }),
                lines.deep_view() == contents_in(rights.take(i as int), sel),
            decreases ds.right_lines.len() - i,
        {
            let picked = if use_cursor {
                i == ds.cursor_line
            } else {
                ds.selected_lines.contains(&i)
            };
            assert(rights.take(i + 1).drop_last() =~= rights.take(i as int));
            let ghost before = lines.deep_view();
            if picked {
                lines.push(ds.right_lines[i].content.clone());
                assert(lines.deep_view() =~= before.push(rights[i as int].0));
            }
            i = i + 1;
        }
        assert(rights.take(ds.right_lines.len() as int) =~= rights);
        if lines.len() > 0 {
            return Some(join_rows(&lines));
        }
        return None;
    }
    if ds.current_hunk < ds.hunks.len() {
        let h = ds.hunks[ds.current_hunk];
        let mut i = h.display_start;
        assert(ds.hunks@[ds.current_hunk as int] == h);
        while i < h.display_end
            invariant
                h.display_start <= i <= h.display_end <= ds.right_lines.len(),
                rights == ds.right_lines@.map_values(|d: DiffLine| d.model()),
                lines.deep_view() == new_contents(rights, h.display_start as int, i as int),
            decreases h.display_end - i,
        {
            let ghost before = lines.deep_view();
            let k = ds.right_lines[i].kind;
            if k == DiffLineKind::Added || k == DiffLineKind::Equal {
                lines.push(ds.right_lines[i].content.clone());
                assert(lines.deep_view() =~= before.push(rights[i as int].0));
            } else {
                assert(lines.deep_view() =~= before);
            }
            i = i + 1;
        }
        if lines.len() > 0 {
            return Some(join_rows(&lines));
        }
    }
    None
}

/// Copy to the clipboard what `get_yank_text` gives.
pub open spec fn yank_post(o: App, n: App, c: Command) -> bool {
    &&& (n == o)
    &&& (match yank_text(o) {
        Some(t) => c matches Command::Yank { text } && text@ == t,
        None => c is Nothing,
    })
}

/// Stage the selected file. A conflicted file is refused; from a diff
/// with hunks, ask first (the hunk key stages one hunk).
pub open spec fn stage_file_post(o: App, n: App, c: Command) -> bool {
    &&& (match selected_entry(o) {
        Some(e) => if e.status == FileStatus::Conflict {
            &&& c is Nothing
            &&& n.status_message matches Some(m) && m@
                == "Cannot stage conflict file \u{2014} resolve conflicts first"@
            &&& n == (App { status_message: n.status_message, ..o })
        } else if o.active_panel == Panel::DiffView && (o.diff_state matches Some(
            ds,
        ) && ds.hunks.len() > 0) {
            &&& c is Nothing
            &&& n.overlay matches Overlay::Confirm { message, action } && message@
                == "Stage entire file '"@ + e.path@ + "'? (Use 's' to stage current hunk)"@
                && action == (PendingAction::StageEntireFile { path: e.path })
            &&& n == (App { overlay: n.overlay, ..o })
        } else {
            &&& c == (Command::StageFile { path: e.path })
            &&& n == o
        },
        None => c is Nothing && n == o,
    })
}

/// Unstage the selected file.
pub open spec fn unstage_file_post(o: App, n: App, c: Command) -> bool {
    &&& (n == o)
    &&& (match selected_entry(o) {
        Some(e) => c == (Command::UnstageFile { path: e.path }),
        None => c is Nothing,
    })
}

/// Commit (or amend) with the typed message; a blank message is refused.
pub open spec fn do_commit_post(o: App, n: App, c: Command) -> bool {
    &&& (match o.overlay {
        Overlay::CommitInput { input, amend } => if forall|i: int|
            0 <= i < input.text().len() ==> crate::text_input::blank(#[trigger] input.text()[i]) {
            &&& c is Nothing
            &&& n.status_message matches Some(m) && m@
                == "Commit message cannot be empty"@
            &&& n == (App { status_message: n.status_message, ..o })
        } else {
            &&& c matches Command::Commit { message, amend: a } && a == amend && message@
                == join_with_nl(input.text())
            &&& n == o
        },
        _ => c is Nothing && n == o,
    })
}

/// Stage the current hunk alone.
pub open spec fn stage_current_hunk_post(o: App, n: App, c: Command) -> bool {
    &&& (match o.diff_state {
        Some(ds) => if ds.hunks.len() == 0 {
            &&& c is Nothing
            &&& n.status_message matches Some(m) && m@ == "No hunks to stage"@
            &&& n == (App { status_message: n.status_message, ..o })
        } else {
            &&& c matches Command::StageContent { path, content, done, reset_line_mode }
                && path == ds.file_path && content@ == hunk_result(
                line_diff(ds.old_content@, ds.new_content@),
                ds.current_hunk as int,
            ) && done@ == "Staged hunk "@ + dec_digits((ds.current_hunk + 1) as nat) + "/"@
                + dec_digits(ds.hunks.len() as nat) + " of "@ + ds.file_path@
                && !reset_line_mode
            &&& n == o
        },
        None => {
            &&& c is Nothing
            &&& n.status_message matches Some(m) && m@ == "No diff to stage from"@
            &&& n == (App { status_message: n.status_message, ..o })
        },
    })
}

/// Stage (or, for a staged file, unstage) the selected lines.
pub open spec fn stage_selected_lines_post(o: App, n: App, c: Command) -> bool {
    &&& (match o.diff_state {
        Some(ds) => if ds.view_mode != DiffViewMode::LineNav {
            c is Nothing && n == o
        } else if ds.selected_lines@.is_empty() {
            &&& c is Nothing
            &&& n.status_message matches Some(m) && m@
                == "No lines selected \u{2014} use Enter/\u{2192} to select lines first"@
            &&& n == (App { status_message: n.status_message, ..o })
        } else {
            &&& c matches Command::StageContent { path, content, done, reset_line_mode }
                && path == ds.file_path && content@ == lines_result(
                line_diff(ds.old_content@, ds.new_content@),
                row_set(rows_to_apply(ds)),
            ) && done@ == (if ds.is_staged {
                "Unstaged "@
            } else {
                "Staged "@
            }) + dec_digits(ds.selected_lines@.len()) + " line(s) of "@ + ds.file_path@
                && reset_line_mode
            &&& n == o
        },
        None => {
            &&& c is Nothing
            &&& n.status_message matches Some(m) && m@ == "No diff to stage from"@
            &&& n == (App { status_message: n.status_message, ..o })
        },
    })
}

/// Save the resolved conflict file once no section is left unresolved.
pub open spec fn conflict_save_post(o: App, n: App, c: Command) -> bool {
    &&& (match o.conflict_state {
        Some(cs) => if unresolved_in(cs.sections@) > 0 {
            &&& c is Nothing
            &&& n.status_message matches Some(m) && m@ == dec_digits(
                unresolved_in(cs.sections@),
            ) + " conflict(s) still unresolved"@
            &&& n == (App { status_message: n.status_message, ..o })
        } else {
            &&& c matches Command::WriteResolved { path, content } && path == cs.file_path
                && content@ == file_text(cs.prefix.deep_view() + resolved_sections(cs.sections@))
            &&& n == o
        },
        None => c is Nothing && n == o,
    })
}

/// Blame off; or on, for the file of the diff.
pub open spec fn toggle_blame_post(o: App, n: App, c: Command) -> bool {
    &&& (if o.show_blame {
        &&& c is Nothing
        &&& n.status_message matches Some(m) && m@ == "Blame off"@
        &&& n == (App {
            show_blame: false,
            blame_data: None,
            status_message: n.status_message,
            ..o
        })
    } else {
        match o.diff_state {
            Some(ds) => c == (Command::LoadBlame { path: ds.file_path }) && n == o,
            None => {
                &&& c is Nothing
                &&& n.status_message matches Some(m) && m@
                    == "No file selected for blame"@
                &&& n == (App { status_message: n.status_message, ..o })
            },
        }
    })
}

/// Switch to the next theme.
pub open spec fn cycle_theme_post(o: App, n: App, c: Command) -> bool {
    &&& (c is ThemeChanged)
    &&& (n == (App {
        theme: n.theme,
        status_message: n.status_message,
        ..o
    }))
    &&& (({
        let next = if o.theme.name@ == "dracula"@ {
            "default"@
        } else {
            "dracula"@
        };
        &&& n.theme.name@ == next
        &&& next == "dracula"@ ==> crate::theme::is_dracula_theme(n.theme)
        &&& next != "dracula"@ ==> crate::theme::is_default_theme(n.theme)
        &&& n.status_message matches Some(m) && m@ == "Theme: "@ + next
    }))
}

impl App {
    /// The text the clipboard gets.
    pub fn get_yank_text(&self) -> (r: Option<String>)
        requires
            self.diff_state matches Some(ds) ==> ds.wf(),
        ensures
            match r {
                Some(s) => yank_text(*self) == Some(s@),
                None => yank_text(*self) is None,
            },
    {
        if let Overlay::GitLog { entries, selected, .. } = &self.overlay {
            if *selected < entries.len() {
                return Some(entries[*selected].hash.clone());
            }
            return None;
        }
        if let Some(ds) = &self.diff_state {
            if let Some(t) = diff_yank_text(ds) {
                return Some(t);
            }
        }
        if let Some(entry) = self.selected_file_entry() {
            return Some(entry.path.clone());
        }
        None
    }

    /// Copy to the clipboard what `get_yank_text` gives.
    pub fn handle_yank(&mut self) -> (c: Command)
        requires
            old(self).diff_state matches Some(ds) ==> ds.wf(),
        ensures
            yank_post(*old(self), *final(self), c),
    {
        match self.get_yank_text() {
            Some(text) => Command::Yank { text },
            None => Command::Nothing,
        }
    }

    /// The entries that pass the file filter, with their indices.
    pub fn filtered_entries(&self) -> (r: Vec<(usize, &FileEntry)>)
        ensures
            r@.map_values(|p: (usize, &FileEntry)| p.0) == filtered_indices(
                self.file_entries@,
                self.file_filter,
            ),
            forall|k: int|
                0 <= k < r.len() ==> r@[k].0 < self.file_entries.len() && *r@[k].1
                    == self.file_entries@[r@[k].0 as int],
    {
        let mut r: Vec<(usize, &FileEntry)> = Vec::new();
        let mut ws: Vec<Vec<char>> = Vec::new();
        let mut active = false;
        match &self.file_filter {
            Some(f) => {
                if f.as_str().unicode_len() > 0 {
                    active = true;
                    let lf = to_lower(f.as_str());
                    ws = split_words(lf.as_str());
                }
            },
            None => {},
        }
        let mut i: usize = 0;
        while i < self.file_entries.len()
            invariant
                i <= self.file_entries.len(),
                active == (self.file_filter matches Some(f) && f@.len() > 0),
                active ==> ws@.map_values(|w: Vec<char>| w@) == words(
                    lowercase(self.file_filter->0@),
                ),
                r@.map_values(|p: (usize, &FileEntry)| p.0) == filtered_indices(
                    self.file_entries@.take(i as int),
                    self.file_filter,
                ),
                forall|k: int|
                    0 <= k < r.len() ==> r@[k].0 < i && *r@[k].1 == self.file_entries@[r@[k].0 as int],
            decreases self.file_entries.len() - i,
        {
            let e = &self.file_entries[i];
            let mut pass = true;
            if active {
                let lp = to_lower(e.path.as_str());
                let hay = chars_of(lp.as_str());
                let ghost ww = ws@.map_values(|w: Vec<char>| w@);
                let mut k: usize = 0;
                while k < ws.len()
                    invariant
                        k <= ws.len(),
                        ww == ws@.map_values(|w: Vec<char>| w@),
                        hay@ == lowercase(e.path@),
                        pass == forall|q: int| 0 <= q < k ==> has_sub(hay@, #[trigger] ww[q]),
                    decreases ws.len() - k,
                {
                    assert(ww[k as int] == ws@[k as int]@);
                    if !contains_sub(&hay, &ws[k]) {
                        pass = false;
                    }
                    k = k + 1;
                }
            }
            assert(self.file_entries@.take(i + 1).drop_last() =~= self.file_entries@.take(i as int));
            assert(pass == passes_filter(e.path@, self.file_filter));
            if pass {
                let ghost before = r@.map_values(|p: (usize, &FileEntry)| p.0);
                r.push((i, e));
                assert(r@.map_values(|p: (usize, &FileEntry)| p.0) =~= before.push(i));
            }
            i = i + 1;
        }
        assert(self.file_entries@.take(self.file_entries.len() as int) =~= self.file_entries@);
        r
    }
}


impl App {
    /// Stage the selected file. A conflicted file is refused; from a diff
    /// with hunks, ask first (the hunk key stages one hunk).
    pub fn handle_stage_file(&mut self) -> (c: Command)
        ensures
            stage_file_post(*old(self), *final(self), c),
    {
        let mut target: Option<(String, bool)> = None;
        if let Some(entry) = self.selected_file_entry() {
            target = Some((entry.path.clone(), entry.status == FileStatus::Conflict));
        }
        match target {
            Some((path, conflict)) => {
                if conflict {
                    self.status_message = Some(
                        String::from_str("Cannot stage conflict file \u{2014} resolve conflicts first"),
                    );
                    return Command::Nothing;
                }
                let partial = self.active_panel == Panel::DiffView && match &self.diff_state {
                    Some(ds) => ds.hunks.len() > 0,
                    None => false,
                };
                if partial {
                    let message = concat3(
                        "Stage entire file '",
                        path.as_str(),
                        "'? (Use 's' to stage current hunk)",
                    );
                    self.overlay = Overlay::Confirm {
                        message,
                        action: PendingAction::StageEntireFile { path },
                    };
                    Command::Nothing
                } else {
                    Command::StageFile { path }
                }
            },
            None => Command::Nothing,
        }
    }

    /// Unstage the selected file.
    pub fn handle_unstage_file(&mut self) -> (c: Command)
        ensures
            unstage_file_post(*old(self), *final(self), c),
    {
        match self.selected_file_entry() {
            Some(entry) => Command::UnstageFile { path: entry.path.clone() },
            None => Command::Nothing,
        }
    }

    /// Commit (or amend) with the typed message; a blank message is refused.
    pub fn do_commit(&mut self) -> (c: Command)
        requires
            old(self).overlay matches Overlay::CommitInput { input, .. } ==> input.lines.len() > 0,
        ensures
            do_commit_post(*old(self), *final(self), c),
    {
        let mut msg: Option<(String, bool)> = None;
        let mut blank = false;
        if let Overlay::CommitInput { input, amend } = &self.overlay {
            if input.is_empty() {
                blank = true;
            } else {
                msg = Some((input.to_string(), *amend));
            }
        }
        if blank {
            self.status_message = Some(String::from_str("Commit message cannot be empty"));
            return Command::Nothing;
        }
        match msg {
            Some((message, amend)) => Command::Commit { message, amend },
            None => Command::Nothing,
        }
    }

    /// Stage the current hunk alone.
    pub fn stage_current_hunk(&mut self) -> (c: Command)
        requires
            old(self).diff_state matches Some(ds) ==> ds.wf(),
        ensures
            stage_current_hunk_post(*old(self), *final(self), c),
    {
        let mut out: Option<Command> = None;
        let mut why: Option<String> = None;
        match &self.diff_state {
            None => {
                why = Some(String::from_str("No diff to stage from"));
            },
            Some(ds) => {
                if ds.hunks.len() == 0 {
                    why = Some(String::from_str("No hunks to stage"));
                } else {
                    let content = apply_hunk(ds.old_content.as_str(), ds.new_content.as_str(), ds.current_hunk);
                    let mut done = String::from_str("Staged hunk ");
                    push_decimal(&mut done, ds.current_hunk as u64 + 1);
                    done.push_str("/");
                    push_decimal(&mut done, ds.hunks.len() as u64);
                    done.push_str(" of ");
                    done.push_str(ds.file_path.as_str());
                    proof {
                        reveal_strlit("Staged hunk ");
                        reveal_strlit("/");
                        reveal_strlit(" of ");
                    }
                    out = Some(
                        Command::StageContent {
                            path: ds.file_path.clone(),
                            content,
                            done,
                            reset_line_mode: false,
                        },
                    );
                }
            },
        }
        if let Some(m) = why {
            self.status_message = Some(m);
        }
        match out {
            Some(c) => c,
            None => Command::Nothing,
        }
    }

    /// Stage (or, for a staged file, unstage) the selected lines.
    pub fn stage_selected_lines(&mut self) -> (c: Command)
        ensures
            stage_selected_lines_post(*old(self), *final(self), c),
    {
        let mut out: Option<Command> = None;
        let mut why: Option<String> = None;
        match &self.diff_state {
            None => {
                why = Some(String::from_str("No diff to stage from"));
            },
            Some(ds) => {
                if ds.view_mode != DiffViewMode::LineNav {
                } else if ds.selected_lines.is_empty() {
                    why = Some(
                        String::from_str(
                            "No lines selected \u{2014} use Enter/\u{2192} to select lines first",
                        ),
                    );
                } else {
                    let count = ds.selected_lines.len();
                    let mut rows: BTreeSet<usize> = BTreeSet::new();
                    if ds.is_staged {
                        let mut i: usize = 0;
                        while i < ds.hunk_changed_rows.len()
                            invariant
                                i <= ds.hunk_changed_rows.len(),
                                rows@ == rows_set(ds.hunk_changed_rows@.take(i as int)).difference(
                                    ds.selected_lines@,
                                ),
                            decreases ds.hunk_changed_rows.len() - i,
                        {
                            let r = ds.hunk_changed_rows[i];
                            let ghost t0 = ds.hunk_changed_rows@.take(i as int);
                            let ghost t1 = ds.hunk_changed_rows@.take(i + 1);
                            assert(t1 =~= t0.push(r));
                            assert forall|x: usize| t1.contains(x) <==> (t0.contains(x) || x == r) by {
                                if t1.contains(x) {
                                    let j = choose|j: int| 0 <= j < t1.len() && t1[j] == x;
                                    if j < t0.len() {
                                        assert(t0[j] == x);
                                    }
                                }
                                if t0.contains(x) {
                                    let j = choose|j: int| 0 <= j < t0.len() && t0[j] == x;
                                    assert(t1[j] == x);
                                }
                                if x == r {
                                    assert(t1[i as int] == x);
                                }
                            }
                            if !ds.selected_lines.contains(&r) {
                                rows.insert(r);
                            }
                            assert(rows@ =~= rows_set(t1).difference(ds.selected_lines@));
                            i = i + 1;
                        }
                        assert(ds.hunk_changed_rows@.take(ds.hunk_changed_rows.len() as int)
                            =~= ds.hunk_changed_rows@);
                    } else {
                        rows = ds.selected_lines.clone();
                    }
                    assert(rows@ == rows_to_apply(*ds));
                    let content = apply_lines(ds.old_content.as_str(), ds.new_content.as_str(), &rows);
                    let mut done = if ds.is_staged {
                        String::from_str("Unstaged ")
                    } else {
                        String::from_str("Staged ")
                    };
                    push_decimal(&mut done, count as u64);
                    done.push_str(" line(s) of ");
                    done.push_str(ds.file_path.as_str());
                    proof {
                        reveal_strlit(" line(s) of ");
                    }
                    out = Some(
                        Command::StageContent {
                            path: ds.file_path.clone(),
                            content,
                            done,
                            reset_line_mode: true,
                        },
                    );
                }
            },
        }
        if let Some(m) = why {
            self.status_message = Some(m);
        }
        match out {
            Some(c) => c,
            None => Command::Nothing,
        }
    }

    /// Save the resolved conflict file once no section is left unresolved.
    pub fn handle_conflict_save(&mut self) -> (c: Command)
        ensures
            conflict_save_post(*old(self), *final(self), c),
    {
        let mut out: Option<Command> = None;
        let mut why: Option<String> = None;
        if let Some(cs) = &self.conflict_state {
            let n = cs.unresolved_count();
            if n > 0 {
                let mut m = String::new();
                push_decimal(&mut m, n as u64);
                m.push_str(" conflict(s) still unresolved");
                why = Some(m);
            } else {
                out = Some(
                    Command::WriteResolved { path: cs.file_path.clone(), content: cs.resolved_content() },
                );
            }
        }
        if let Some(m) = why {
            self.status_message = Some(m);
        }
        match out {
            Some(c) => c,
            None => Command::Nothing,
        }
    }

    /// Blame off; or on, for the file of the diff.
    pub fn handle_toggle_blame(&mut self) -> (c: Command)
        ensures
            toggle_blame_post(*old(self), *final(self), c),
    {
        if self.show_blame {
            self.show_blame = false;
            self.blame_data = None;
            self.status_message = Some(String::from_str("Blame off"));
            return Command::Nothing;
        }
        match &self.diff_state {
            Some(ds) => Command::LoadBlame { path: ds.file_path.clone() },
            None => {
                self.status_message = Some(String::from_str("No file selected for blame"));
                Command::Nothing
            },
        }
    }

    /// Switch to the next theme.
    pub fn handle_cycle_theme(&mut self) -> (c: Command)
        ensures
            cycle_theme_post(*old(self), *final(self), c),
    {
        let next = Theme::next_theme_name(self.theme.name);
        self.theme = Theme::from_name(next);
        self.status_message = Some(concat2("Theme: ", next));
        proof {
            reveal_strlit("dracula");
            reveal_strlit("default");
        }
        Command::ThemeChanged
    }
}

proof fn lemma_filtered_indices(es: Seq<FileEntry>, filter: Option<String>)
    requires
        es.len() <= usize::MAX,
    ensures
        forall|k: int|
            0 <= k < filtered_indices(es, filter).len() ==> (#[trigger] filtered_indices(es, filter)[k]) < es.len()
                && passes_filter(es[filtered_indices(es, filter)[k] as int].path@, filter),
        forall|i: int|
            0 <= i < es.len() ==> (filtered_indices(es, filter).contains(i as usize) <==> passes_filter(
                #[trigger] es[i].path@,
                filter,
            )),
    decreases es.len(),
{
    if es.len() > 0 {
        let p = es.drop_last();
        lemma_filtered_indices(p, filter);
        let prev = filtered_indices(p, filter);
        let cur = filtered_indices(es, filter);
        let last = (es.len() - 1) as usize;
        let ok = passes_filter(es.last().path@, filter);
        let tail: Seq<usize> = if ok {
            seq![last]
        } else {
            Seq::empty()
        };
        assert(cur == prev + tail);
        assert(es.last() == es[last as int]);
        assert forall|k: int| 0 <= k < prev.len() implies prev[k] < p.len() by {}
        assert forall|k: int| 0 <= k < cur.len() implies (#[trigger] cur[k]) < es.len() && passes_filter(
            es[cur[k] as int].path@,
            filter,
        ) by {
            if k < prev.len() {
                assert(cur[k] == prev[k]);
                assert(es[prev[k] as int] == p[prev[k] as int]);
            } else {
                assert(ok);
                assert(cur[k] == last);
            }
        }
        assert forall|i: int| 0 <= i < es.len() implies (cur.contains(i as usize) <==> passes_filter(
            #[trigger] es[i].path@,
            filter,
        )) by {
            if i < p.len() {
                assert(es[i] == p[i]);
                if cur.contains(i as usize) {
                    let w = choose|w: int| 0 <= w < cur.len() && cur[w] == i as usize;
                    if w < prev.len() {
                        assert(cur[w] == prev[w]);
                    } else {
                        assert(cur[w] == last);
                    }
                }
                if prev.contains(i as usize) {
                    let w = choose|w: int| 0 <= w < prev.len() && prev[w] == i as usize;
                    assert(cur[w] == prev[w]);
                }
            } else {
                if passes_filter(es[i].path@, filter) {
                    assert(cur[prev.len() as int] == last);
                }
                if cur.contains(i as usize) {
                    let w = choose|w: int| 0 <= w < cur.len() && cur[w] == i as usize;
                    if w < prev.len() {
                        assert(cur[w] == prev[w]);
                        assert(prev[w] < p.len());
                    }
                }
            }
        }
    }
}

/// Whether the lower-cased `path` holds every whitespace-separated word of
/// the lower-cased `f`.
pub open spec fn has_every_word(path: Seq<char>, f: Seq<char>) -> bool {
    forall|w: int| 0 <= w < words(lowercase(f)).len() ==> has_sub(lowercase(path), #[trigger] words(lowercase(f))[w])
}

/// Law: under a filter with some text, the file list shows exactly the
/// paths that hold every whitespace-separated word of the lower-cased
/// filter in their lower-cased text: a shown path holds them all, and a
/// path that lacks any one of them is not shown. With no filter, or an
/// empty one, every path is shown. (`es` is the file list, so its length
/// fits in `usize`.)
pub proof fn law_filter_needs_every_word(es: Seq<FileEntry>, filter: Option<String>, shown: Seq<usize>)
    requires
        es.len() <= usize::MAX,
        shown == filtered_indices(es, filter),
    ensures
        forall|k: int|
            0 <= k < shown.len() ==> (#[trigger] shown[k]) < es.len() && (filter is Some && filter->0@.len() > 0
                ==> has_every_word(es[shown[k] as int].path@, filter->0@)),
        forall|i: int, w: int|
            0 <= i < es.len() && filter is Some && filter->0@.len() > 0 && 0 <= w < words(lowercase(filter->0@)).len()
                && !has_sub(lowercase(#[trigger] es[i].path@), #[trigger] words(lowercase(filter->0@))[w])
                ==> !shown.contains(i as usize),
        forall|i: int|
            0 <= i < es.len() && filter is Some && has_every_word(#[trigger] es[i].path@, filter->0@)
                ==> shown.contains(i as usize),
        forall|i: int|
            0 <= i < es.len() && (filter is None || filter->0@.len() == 0) ==> shown.contains(
                #[trigger] (i as usize),
            ),
{
    lemma_filtered_indices(es, filter);
    assert forall|k: int| 0 <= k < shown.len() implies (#[trigger] shown[k]) < es.len() && (filter is Some
        && filter->0@.len() > 0 ==> has_every_word(es[shown[k] as int].path@, filter->0@)) by {
        assert(passes_filter(es[shown[k] as int].path@, filter));
    }
    assert forall|i: int|
        0 <= i < es.len() && filter is Some && has_every_word(#[trigger] es[i].path@, filter->0@) implies shown.contains(
        i as usize,
    ) by {
        assert(passes_filter(es[i].path@, filter));
    }
    assert forall|i: int|
        0 <= i < es.len() && (filter is None || filter->0@.len() == 0) implies shown.contains(
        #[trigger] (i as usize),
    ) by {
        assert(passes_filter(es[i].path@, filter));
    }
}

/// Every changed row of the diff `cs` is in `rows`.
pub open spec fn every_change_in(cs: Seq<crate::diff::Change>, rows: Set<usize>) -> bool {
    forall|r: int| 0 <= r < cs.len() && cs[r].0 != ChangeTag::Equal ==> r <= usize::MAX && #[trigger] rows.contains(r as usize)
}

/// No changed row of the diff `cs` is in `rows`.
pub open spec fn no_change_in(cs: Seq<crate::diff::Change>, rows: Set<usize>) -> bool {
    forall|r: int| 0 <= r < cs.len() && cs[r].0 != ChangeTag::Equal && r <= usize::MAX ==> !#[trigger] rows.contains(r as usize)
}

/// Law: for a staged file, line mode unstages the selected lines: the text
/// staged is the old text (`HEAD`) with a set of the diff's rows applied
/// that holds no selected row and every listed changed row that is not
/// selected. So unstaging every changed row gives back the old text, and,
/// where every changed row is listed, unstaging none of them gives back the
/// new text (the index).
pub proof fn law_unstage_selected_lines(o: App, n: App, c: Command)
    requires
        stage_selected_lines_post(o, n, c),
        o.diff_state matches Some(ds) && ds.view_mode == DiffViewMode::LineNav && ds.is_staged
            && !ds.selected_lines@.is_empty(),
    ensures
        c is StageContent,
        exists|applied: Set<int>|
            #![trigger lines_result(line_diff(o.diff_state->0.old_content@, o.diff_state->0.new_content@), applied)]
            {
                &&& c->StageContent_content@ == lines_result(
                    line_diff(o.diff_state->0.old_content@, o.diff_state->0.new_content@),
                    applied,
                )
                &&& forall|r: int| #[trigger] applied.contains(r) ==> 0 <= r <= usize::MAX
                    && !o.diff_state->0.selected_lines@.contains(r as usize)
                    && o.diff_state->0.hunk_changed_rows@.contains(r as usize)
                &&& forall|r: int|
                    0 <= r <= usize::MAX && o.diff_state->0.hunk_changed_rows@.contains(r as usize)
                        && !o.diff_state->0.selected_lines@.contains(r as usize) ==> #[trigger] applied.contains(r)
            },
        every_change_in(
            line_diff(o.diff_state->0.old_content@, o.diff_state->0.new_content@),
            o.diff_state->0.selected_lines@,
        ) ==> c->StageContent_content@ == old_side(
            line_diff(o.diff_state->0.old_content@, o.diff_state->0.new_content@),
        ),
        every_change_in(
            line_diff(o.diff_state->0.old_content@, o.diff_state->0.new_content@),
            rows_set(o.diff_state->0.hunk_changed_rows@),
        ) && no_change_in(
            line_diff(o.diff_state->0.old_content@, o.diff_state->0.new_content@),
            o.diff_state->0.selected_lines@,
        ) ==> c->StageContent_content@ == new_side(
            line_diff(o.diff_state->0.old_content@, o.diff_state->0.new_content@),
        ),
{
    let ds = o.diff_state->0;
    let cs = line_diff(ds.old_content@, ds.new_content@);
    let applied = row_set(rows_to_apply(ds));
    assert(c is StageContent);
    assert(c->StageContent_content@ == lines_result(cs, applied));
    assert forall|r: int| #[trigger] applied.contains(r) implies 0 <= r <= usize::MAX && !ds.selected_lines@.contains(
        r as usize,
    ) && ds.hunk_changed_rows@.contains(r as usize) by {}
    assert forall|r: int|
        0 <= r <= usize::MAX && ds.hunk_changed_rows@.contains(r as usize) && !ds.selected_lines@.contains(
            r as usize,
        ) implies #[trigger] applied.contains(r) by {}
    if every_change_in(cs, ds.selected_lines@) {
        assert forall|r: int| 0 <= r < cs.len() && cs[r].0 != ChangeTag::Equal implies !applied.contains(r) by {
            if applied.contains(r) {
                assert(ds.selected_lines@.contains(r as usize));
            }
        }
        lemma_lines_none(cs, applied);
    }
    if every_change_in(cs, rows_set(ds.hunk_changed_rows@)) && no_change_in(cs, ds.selected_lines@) {
        assert forall|r: int| 0 <= r < cs.len() && cs[r].0 != ChangeTag::Equal implies applied.contains(r) by {
            assert(rows_set(ds.hunk_changed_rows@).contains(r as usize));
            assert(!ds.selected_lines@.contains(r as usize));
        }
        lemma_lines_all(cs, applied);
    }
}

/// Law: for a file that is not staged, line mode stages exactly the
/// selected lines: the text staged is the old text (the index) with the
/// diff's rows applied that are selected and no others. So selecting every
/// changed row stages the new text, and selecting none of them leaves the
/// old text.
pub proof fn law_stage_selected_lines(o: App, n: App, c: Command)
    requires
        stage_selected_lines_post(o, n, c),
        o.diff_state matches Some(ds) && ds.view_mode == DiffViewMode::LineNav && !ds.is_staged
            && !ds.selected_lines@.is_empty(),
    ensures
        c is StageContent,
        exists|applied: Set<int>|
            #![trigger lines_result(line_diff(o.diff_state->0.old_content@, o.diff_state->0.new_content@), applied)]
            {
                &&& c->StageContent_content@ == lines_result(
                    line_diff(o.diff_state->0.old_content@, o.diff_state->0.new_content@),
                    applied,
                )
                &&& forall|r: int| #[trigger] applied.contains(r) ==> 0 <= r <= usize::MAX
                    && o.diff_state->0.selected_lines@.contains(r as usize)
                &&& forall|r: int|
                    0 <= r <= usize::MAX && o.diff_state->0.selected_lines@.contains(r as usize)
                        ==> #[trigger] applied.contains(r)
            },
        every_change_in(
            line_diff(o.diff_state->0.old_content@, o.diff_state->0.new_content@),
            o.diff_state->0.selected_lines@,
        ) ==> c->StageContent_content@ == new_side(
            line_diff(o.diff_state->0.old_content@, o.diff_state->0.new_content@),
        ),
        no_change_in(
            line_diff(o.diff_state->0.old_content@, o.diff_state->0.new_content@),
            o.diff_state->0.selected_lines@,
        ) ==> c->StageContent_content@ == old_side(
            line_diff(o.diff_state->0.old_content@, o.diff_state->0.new_content@),
        ),
{
    let ds = o.diff_state->0;
    let cs = line_diff(ds.old_content@, ds.new_content@);
    let applied = row_set(rows_to_apply(ds));
    assert(c is StageContent);
    assert(c->StageContent_content@ == lines_result(cs, applied));
    assert forall|r: int| #[trigger] applied.contains(r) implies 0 <= r <= usize::MAX && ds.selected_lines@.contains(
        r as usize,
    ) by {}
    assert forall|r: int| 0 <= r <= usize::MAX && ds.selected_lines@.contains(r as usize) implies #[trigger] applied.contains(
        r,
    ) by {}
    if every_change_in(cs, ds.selected_lines@) {
        assert forall|r: int| 0 <= r < cs.len() && cs[r].0 != ChangeTag::Equal implies applied.contains(r) by {
            assert(ds.selected_lines@.contains(r as usize));
        }
        lemma_lines_all(cs, applied);
    }
    if no_change_in(cs, ds.selected_lines@) {
        assert forall|r: int| 0 <= r < cs.len() && cs[r].0 != ChangeTag::Equal implies !applied.contains(r) by {
            if applied.contains(r) {
                assert(ds.selected_lines@.contains(r as usize));
            }
        }
        lemma_lines_none(cs, applied);
    }
}

} // verus!
