//! What a key press does, mode by mode: the keymap in the panels and popups,
//! text editing in the commit editor, the filter and the branch name, and
//! the conflict resolver's own keys.
use vstd::prelude::*;

use crate::app::{App, DiffViewMode, Message, Overlay, Panel};
use crate::keymap::{
    dirty_checkout_spec, key_model, resolve, resolve_dirty_checkout, resolve_spec, InputContext,
    KeyCode, KeyEvent, CONTROL_BIT, SHIFT_BIT,
};
use crate::text_input::{backspaced, char_inserted, newline_inserted, TextInput};
use crate::app_stage::filtered_indices;
use crate::which_key::entry_models;

verus! {

/// Seconds between automatic refreshes.
pub const AUTO_REFRESH_SECS: u64 = 2;

/// The keymap context of the panels: the file list, the conflict resolver,
/// or the diff by hunks or by lines.
pub open spec fn panel_ctx(app: App) -> InputContext {
    if app.active_panel == Panel::FileList {
        InputContext::FileList
    } else if app.conflict_state is Some {
        InputContext::ConflictNav
    } else if app.diff_state matches Some(ds) && ds.view_mode == DiffViewMode::LineNav {
        InputContext::DiffLineNav
    } else {
        InputContext::DiffHunkNav
    }
}

/// What a key means: in a popup, that popup's keys; else the panel's.
pub open spec fn key_message_spec(app: App, key: KeyEvent) -> Option<Message> {
    let k = key_model(key);
    match app.overlay {
        Overlay::Closed => resolve_spec(panel_ctx(app), k),
        Overlay::Confirm { .. } => resolve_spec(InputContext::Confirm, k),
        Overlay::CommitInput { .. } => resolve_spec(InputContext::CommitInput, k),
        Overlay::GitLog { .. } => resolve_spec(InputContext::GitLog, k),
        Overlay::StashList { .. } => resolve_spec(InputContext::StashList, k),
        Overlay::BranchList { .. } => resolve_spec(InputContext::BranchList, k),
        Overlay::CommitDetail { .. } => resolve_spec(InputContext::CommitDetail, k),
        Overlay::Rebase { .. } => resolve_spec(InputContext::Rebase, k),
        Overlay::DirtyCheckout { has_conflicts, .. } => dirty_checkout_spec(k, has_conflicts),
    }
}

/// A key typed as text: no modifier, or shift alone.
pub open spec fn plain_or_shift(key: KeyEvent) -> bool {
    key.modifiers.bits == 0 || key.modifiers.bits == SHIFT_BIT
}

impl App {
    /// Whether the automatic refresh is due: no popup open and at least
    /// `AUTO_REFRESH_SECS` since the last one.
    pub fn auto_refresh_due(&self, elapsed_ms: u64) -> (b: bool)
        ensures
            b == (self.overlay is Closed && elapsed_ms >= AUTO_REFRESH_SECS * 1000),
    {
        !self.overlay.is_active() && elapsed_ms >= AUTO_REFRESH_SECS * 1000
    }

    /// The message a key sends in the panels or the open popup.
    pub fn key_message(&self, key: KeyEvent) -> (r: Option<Message>)
        ensures
            r == key_message_spec(*self, key),
    {
        match &self.overlay {
            Overlay::Closed => {
                let ctx = if self.active_panel == Panel::FileList {
                    InputContext::FileList
                } else if self.conflict_state.is_some() {
                    InputContext::ConflictNav
                } else {
                    let line_mode = match &self.diff_state {
                        Some(ds) => ds.view_mode == DiffViewMode::LineNav,
                        None => false,
                    };
                    if line_mode {
                        InputContext::DiffLineNav
                    } else {
                        InputContext::DiffHunkNav
                    }
                };
                resolve(ctx, key)
            },
            Overlay::Confirm { .. } => resolve(InputContext::Confirm, key),
            Overlay::CommitInput { .. } => resolve(InputContext::CommitInput, key),
            Overlay::GitLog { .. } => resolve(InputContext::GitLog, key),
            Overlay::StashList { .. } => resolve(InputContext::StashList, key),
            Overlay::BranchList { .. } => resolve(InputContext::BranchList, key),
            Overlay::CommitDetail { .. } => resolve(InputContext::CommitDetail, key),
            Overlay::Rebase { .. } => resolve(InputContext::Rebase, key),
            Overlay::DirtyCheckout { has_conflicts, .. } => resolve_dirty_checkout(key, *has_conflicts),
        }
    }

    /// The conflict resolver's keys: Esc closes it, ←/→/b pick ours, theirs
    /// or both, ↑/↓ move between sections, Enter saves, Ctrl+C quits.
    pub fn conflict_key(&mut self, key: KeyEvent) -> (r: Option<Message>)
        ensures
            old(self).wf() ==> final(self).wf(),
            key.code == KeyCode::Esc ==> r is None && final(self).conflict_state is None
                && (final(self).status_message matches Some(m) && m@ == "Conflict resolver closed"@)
                && *final(self) == (App {
                conflict_state: None,
                status_message: final(self).status_message,
                ..*old(self)
            }),
            key.code != KeyCode::Esc ==> *final(self) == *old(self) && r == match key.code {
                KeyCode::Left => Some(Message::ConflictPickOurs),
                KeyCode::Right => Some(Message::ConflictPickTheirs),
                KeyCode::Char('b') => Some(Message::ConflictPickBoth),
                KeyCode::Down => Some(Message::MoveDown),
                KeyCode::Up => Some(Message::MoveUp),
                KeyCode::Enter => Some(Message::ConflictSave),
                KeyCode::Char('c') => if key.modifiers.bits == CONTROL_BIT {
                    Some(Message::Quit)
                } else {
                    None
                },
                _ => None,
            },
    {
        match key.code {
            KeyCode::Esc => {
                self.conflict_state = None;
                self.status_message = Some(String::from_str("Conflict resolver closed"));
                None
            },
            KeyCode::Left => Some(Message::ConflictPickOurs),
            KeyCode::Right => Some(Message::ConflictPickTheirs),
            KeyCode::Char('b') => Some(Message::ConflictPickBoth),
            KeyCode::Down => Some(Message::MoveDown),
            KeyCode::Up => Some(Message::MoveUp),
            KeyCode::Enter => Some(Message::ConflictSave),
            KeyCode::Char('c') => {
                if key.modifiers.bits == CONTROL_BIT {
                    Some(Message::Quit)
                } else {
                    None
                }
            },
            _ => None,
        }
    }

    /// A key in the command popup: the popup closes; a character picks the
    /// first command with that key.
    pub fn which_key_choice(&mut self, key: KeyEvent) -> (r: Option<Message>)
        ensures
            old(self).wf() ==> final(self).wf(),
            *final(self) == (App { which_key: None, ..*old(self) }),
            match (old(self).which_key, key.code) {
                (Some(v), KeyCode::Char(ch)) => match first_key(entry_models(v@), ch) {
                    Some(i) => r == Some(v@[i].message),
                    None => r is None,
                },
                _ => r is None,
            },
    {
        let mut taken: Option<Vec<crate::app::WhichKeyEntry>> = None;
        std::mem::swap(&mut taken, &mut self.which_key);
        match (taken, key.code) {
            (Some(v), KeyCode::Char(ch)) => {
                let ghost m = entry_models(v@);
                let mut i: usize = 0;
                while i < v.len()
                    invariant
                        i <= v.len(),
                        *self == (App { which_key: None, ..*old(self) }),
                        old(self).which_key == Some(v),
                        key.code == KeyCode::Char(ch),
                        m == entry_models(v@),
                        first_key(m.take(i as int), ch) is None,
                    decreases v.len() - i,
                {
                    assert(m.take(i + 1).drop_last() =~= m.take(i as int));
                    if v[i].key == ch {
                        proof {
                            lemma_first_key_prefix(m, ch, i as int);
                        }
                        return Some(v[i].message);
                    }
                    i = i + 1;
                }
                assert(m.take(v.len() as int) =~= m);
                None
            },
            _ => None,
        }
    }

    /// A key while typing a branch name: Esc stops, Enter confirms,
    /// Backspace deletes, a character is typed, Ctrl+C quits.
    pub fn branch_create_key(&mut self, key: KeyEvent) -> (r: Option<Message>)
        ensures
            old(self).wf() ==> final(self).wf(),
            *final(self) == (App { overlay: final(self).overlay, ..*old(self) }),
            match old(self).overlay {
                Overlay::BranchList { entries, selected, creating } => match key.code {
                    KeyCode::Esc => r is None && final(self).overlay == (Overlay::BranchList {
                        entries,
                        selected,
                        creating: None,
                    }),
                    KeyCode::Enter => r == Some(Message::ConfirmCreateBranch) && final(self).overlay
                        == old(self).overlay,
                    KeyCode::Backspace => r is None && match creating {
                        Some(name) => final(self).overlay matches Overlay::BranchList {
                            entries: e2,
                            selected: s2,
                            creating: Some(n2),
                        } && e2 == entries && s2 == selected && n2@ == (if name@.len() > 0 {
                            name@.drop_last()
                        } else {
                            name@
                        }),
                        None => final(self).overlay == old(self).overlay,
                    },
                    KeyCode::Char(ch) => if plain_or_shift(key) {
                        r is None && match creating {
                            Some(name) => final(self).overlay matches Overlay::BranchList {
                                entries: e2,
                                selected: s2,
                                creating: Some(n2),
                            } && e2 == entries && s2 == selected && n2@ == name@.push(ch),
                            None => final(self).overlay == old(self).overlay,
                        }
                    } else {
                        final(self).overlay == old(self).overlay && r == (if ch == 'c'
                            && key.modifiers.bits == CONTROL_BIT {
                            Some(Message::Quit)
                        } else {
                            None
                        })
                    },
                    _ => r is None && final(self).overlay == old(self).overlay,
                },
                _ => final(self).overlay == old(self).overlay && r == match key.code {
                    KeyCode::Enter => Some(Message::ConfirmCreateBranch),
                    KeyCode::Char('c') => if key.modifiers.bits == CONTROL_BIT && !plain_or_shift(key) {
                        Some(Message::Quit)
                    } else {
                        None
                    },
                    _ => None,
                },
            },
    {
        match key.code {
            KeyCode::Esc => {
                if let Overlay::BranchList { creating, .. } = &mut self.overlay {
                    *creating = None;
                }
                None
            },
            KeyCode::Enter => Some(Message::ConfirmCreateBranch),
            KeyCode::Backspace => {
                if let Overlay::BranchList { creating: Some(name), .. } = &mut self.overlay {
                    pop_char(name);
                }
                None
            },
            KeyCode::Char(ch) => {
                if key.modifiers.bits == 0 || key.modifiers.bits == SHIFT_BIT {
                    if let Overlay::BranchList { creating: Some(name), .. } = &mut self.overlay {
                        name.push(ch);
                    }
                    None
                } else if ch == 'c' && key.modifiers.bits == CONTROL_BIT {
                    Some(Message::Quit)
                } else {
                    None
                }
            },
            _ => None,
        }
    }
}

/// What a key means while the commit message is being written, apart
/// from editing it.
pub fn poll_event_overlay_only(key: KeyEvent) -> (r: Option<Message>)
    ensures
        r == resolve_spec(InputContext::CommitInput, key_model(key)),
{
    resolve(InputContext::CommitInput, key)
}

/// Remove the last character of `s`, if any.
pub fn pop_char(s: &mut String)
    ensures
        final(s)@ == (if old(s)@.len() > 0 {
            old(s)@.drop_last()
        } else {
            old(s)@
        }),
{
    let v = crate::text::chars_of(s.as_str());
    if v.len() > 0 {
        let t = crate::text::string_of(&v, 0, v.len() - 1);
        assert(t@ =~= old(s)@.drop_last());
        *s = t;
    }
}

/// Index of the first popup line with key `ch`.
pub open spec fn first_key(m: Seq<crate::which_key::KeyEntry>, ch: char) -> Option<int>
    decreases m.len(),
{
    if m.len() == 0 {
        None
    } else {
        match first_key(m.drop_last(), ch) {
            Some(i) => Some(i),
            None => if m.last().0 == ch {
                Some(m.len() - 1)
            } else {
                None
            },
        }
    }
}

proof fn lemma_first_key_prefix(m: Seq<crate::which_key::KeyEntry>, ch: char, i: int)
    requires
        0 <= i < m.len(),
        first_key(m.take(i), ch) is None,
        m[i].0 == ch,
    ensures
        first_key(m, ch) == Some(i),
    decreases m.len(),
{
    if i < m.len() - 1 {
        assert(m.drop_last().take(i) =~= m.take(i));
        lemma_first_key_prefix(m.drop_last(), ch, i);
    } else {
        assert(m.drop_last() =~= m.take(i));
    }
}


/// What a key does in the commit message editor: a typed character is
/// inserted; Backspace, Enter and the arrow, Home and End keys edit or move.
pub open spec fn text_key_applied(o: TextInput, n: TextInput, key: KeyEvent) -> bool {
    match key.code {
        KeyCode::Char(ch) => if plain_or_shift(key) {
            char_inserted(o, n, ch)
        } else {
            n == o
        },
        KeyCode::Backspace => backspaced(o, n),
        KeyCode::Enter => newline_inserted(o, n),
        KeyCode::Left => n == (TextInput {
            cursor_col: if o.cursor_col > 0 {
                (o.cursor_col - 1) as usize
            } else {
                0
            },
            ..o
        }),
        KeyCode::Right => n == (TextInput {
            cursor_col: if o.cursor_col < o.row_line().len() {
                (o.cursor_col + 1) as usize
            } else {
                o.cursor_col
            },
            ..o
        }),
        KeyCode::Up => n == o.after_move_up(),
        KeyCode::Down => n == o.after_move_down(),
        KeyCode::Home => n == (TextInput { cursor_col: 0, ..o }),
        KeyCode::End => n == (TextInput { cursor_col: o.row_line().len() as usize, ..o }),
        _ => n == o,
    }
}

/// Apply a key to the commit message editor.
pub fn apply_text_input_key(input: &mut TextInput, key: KeyEvent)
    requires
        old(input).wf(),
        old(input).cursor_col < usize::MAX,
    ensures
        final(input).wf(),
        text_key_applied(*old(input), *final(input), key),
{
    match key.code {
        KeyCode::Char(ch) => {
            if key.modifiers.bits == 0 || key.modifiers.bits == SHIFT_BIT {
                input.insert_char(ch);
            }
        },
        KeyCode::Backspace => input.backspace(),
        KeyCode::Enter => input.insert_newline(),
        KeyCode::Left => input.move_left(),
        KeyCode::Right => input.move_right(),
        KeyCode::Up => input.move_up(),
        KeyCode::Down => input.move_down(),
        KeyCode::Home => input.move_home(),
        KeyCode::End => input.move_end(),
        _ => {},
    }
}

impl App {
    /// A key in the commit message editor: the editor's keys send their
    /// message; any other key edits the text.
    pub fn commit_input_key(&mut self, key: KeyEvent) -> (r: Option<Message>)
        requires
            old(self).overlay matches Overlay::CommitInput { input, .. } ==> input.wf()
                && input.cursor_col < usize::MAX,
        ensures
            old(self).wf() ==> final(self).wf(),
            resolve_spec(InputContext::CommitInput, key_model(key)) is Some ==> r == resolve_spec(
                InputContext::CommitInput,
                key_model(key),
            ) && *final(self) == *old(self),
            resolve_spec(InputContext::CommitInput, key_model(key)) is None ==> r is None && match old(
                self,
            ).overlay {
                Overlay::CommitInput { input, amend } => final(self).overlay matches Overlay::CommitInput {
                    input: i2,
                    amend: a2,
                } && a2 == amend && text_key_applied(input, i2, key) && *final(self) == (App {
                    overlay: final(self).overlay,
                    ..*old(self)
                }),
                _ => *final(self) == *old(self),
            },
    {
        let m = resolve(InputContext::CommitInput, key);
        if m.is_some() {
            return m;
        }
        if let Overlay::CommitInput { input, .. } = &mut self.overlay {
            apply_text_input_key(input, key);
        }
        None
    }

    /// A key while typing the file filter: Esc clears it, Enter keeps the
    /// selection and stops typing, Backspace and characters edit it, Ctrl+C
    /// quits. While typing, the first matching file is selected.
    pub fn filter_key(&mut self, key: KeyEvent) -> (r: Option<Message>)
        ensures
            old(self).wf() ==> final(self).wf(),
            key.code == KeyCode::Esc ==> r == Some(Message::ClearFilter) && *final(self) == *old(self),
            key.code == KeyCode::Enter ==> r is None && *final(self) == (App {
                selected_index: first_or(
                    filtered_indices(old(self).file_entries@, old(self).file_filter),
                    old(self).selected_index,
                ),
                file_filter: None,
                ..*old(self)
            }),
            key.code != KeyCode::Esc && key.code != KeyCode::Enter ==> {
                let f2 = match (old(self).file_filter, key.code) {
                    (Some(f), KeyCode::Backspace) => Some(if f@.len() > 0 {
                        f@.drop_last()
                    } else {
                        f@
                    }),
                    (Some(f), KeyCode::Char(ch)) => if plain_or_shift(key) {
                        Some(f@.push(ch))
                    } else {
                        Some(f@)
                    },
                    (Some(f), _) => Some(f@),
                    (None, _) => None,
                };
                let quits = !plain_or_shift(key) && key.code == KeyCode::Char('c')
                    && key.modifiers.bits == CONTROL_BIT;
                &&& r == (if quits {
                    Some(Message::Quit)
                } else {
                    None
                })
                &&& (match final(self).file_filter {
                    Some(f) => f2 == Some(f@),
                    None => f2 is None,
                })
                &&& *final(self) == (App {
                    file_filter: final(self).file_filter,
                    selected_index: if quits {
                        old(self).selected_index
                    } else {
                        first_or(
                            filtered_indices(old(self).file_entries@, final(self).file_filter),
                            old(self).selected_index,
                        )
                    },
                    ..*old(self)
                })
            },
    {
        match key.code {
            KeyCode::Esc => {
                return Some(Message::ClearFilter);
            },
            KeyCode::Enter => {
                self.select_first_match();
                self.file_filter = None;
                return None;
            },
            KeyCode::Backspace => {
                if let Some(f) = &mut self.file_filter {
                    pop_char(f);
                }
            },
            KeyCode::Char(ch) => {
                if key.modifiers.bits == 0 || key.modifiers.bits == SHIFT_BIT {
                    if let Some(f) = &mut self.file_filter {
                        f.push(ch);
                    }
                } else if ch == 'c' && key.modifiers.bits == CONTROL_BIT {
                    return Some(Message::Quit);
                }
            },
            _ => {},
        }
        self.select_first_match();
        None
    }

    /// Select the first file that passes the filter, if any.
    fn select_first_match(&mut self)
        ensures
            *final(self) == (App {
                selected_index: first_or(
                    filtered_indices(old(self).file_entries@, old(self).file_filter),
                    old(self).selected_index,
                ),
                ..*old(self)
            }),
    {
        let first = {
            let f = self.filtered_entries();
            if f.len() > 0 {
                assert(f@.map_values(|p: (usize, &crate::status::FileEntry)| p.0)[0] == f@[0].0);
                Some(f[0].0)
            } else {
                None
            }
        };
        if let Some(i) = first {
            self.selected_index = i;
        }
    }
}

/// The first index, or `d` when there is none.
pub open spec fn first_or(v: Seq<usize>, d: usize) -> usize {
    if v.len() > 0 {
        v[0]
    } else {
        d
    }
}

/// Which handler takes the next key: the conflict resolver, the editor
/// about to run, the commit message, the new branch's name, the file
/// filter, the command popup, or the normal bindings.
#[derive(Debug, Clone, Copy, PartialEq, Eq, Structural)]
pub enum InputMode {
    Conflict,
    Editor,
    CommitText,
    BranchName,
    Filter,
    WhichKey,
    Normal,
}

/// Which handler takes the next key, in this order of precedence.
pub open spec fn input_mode_spec(a: App) -> InputMode {
    if a.conflict_state is Some {
        InputMode::Conflict
    } else if a.pending_editor is Some {
        InputMode::Editor
    } else if a.overlay is CommitInput {
        InputMode::CommitText
    } else if a.overlay matches Overlay::BranchList { creating, .. } && creating is Some {
        InputMode::BranchName
    } else if a.file_filter is Some {
        InputMode::Filter
    } else if a.which_key is Some {
        InputMode::WhichKey
    } else {
        InputMode::Normal
    }
}

impl App {
    /// Which handler takes the next key.
    pub fn input_mode(&self) -> (m: InputMode)
        ensures
            m == input_mode_spec(*self),
    {
        if self.conflict_state.is_some() {
            InputMode::Conflict
        } else if self.pending_editor.is_some() {
            InputMode::Editor
        } else if let Overlay::CommitInput { .. } = &self.overlay {
            InputMode::CommitText
        } else if let Overlay::BranchList { creating: Some(_), .. } = &self.overlay {
            InputMode::BranchName
        } else if self.file_filter.is_some() {
            InputMode::Filter
        } else if self.which_key.is_some() {
            InputMode::WhichKey
        } else {
            InputMode::Normal
        }
    }
}

} // verus!
