//! Key bindings: which key sends which message in each context, and how
//! keys are written in the hint lines.
use vstd::prelude::*;

use crate::app::Message;
use crate::styled::{in_fg, line_model, lines_model, plain, push_line, push_run, span, span_lit, Styled, StyledModel};
use crate::theme::{Color, Theme};
use crate::text::{concat2, dec_digits, join_sep, join_strings, push_decimal, starts_with, str_eq, to_upper, uppercase};
use vstd::string::StrSliceExecFns;

verus! {

/// Where the keyboard focus is, which decides what a key means.
#[derive(Debug, Clone, Copy, PartialEq, Eq, Structural)]
pub enum InputContext {
    FileList,
    DiffHunkNav,
    DiffLineNav,
    ConflictNav,
    Confirm,
    CommitInput,
    GitLog,
    StashList,
    BranchList,
    CommitDetail,
    Rebase,
}

/// A key of the keyboard.
#[derive(Debug, Clone, Copy, PartialEq, Eq, Structural)]
pub enum KeyCode {
    Backspace,
    Enter,
    Left,
    Right,
    Up,
    Down,
    Home,
    End,
    PageUp,
    PageDown,
    Tab,
    BackTab,
    Delete,
    Insert,
    F(u8),
    Char(char),
    Null,
    Esc,
    CapsLock,
    ScrollLock,
    NumLock,
    PrintScreen,
    Pause,
    Menu,
    KeypadBegin,
    Media,
    Modifier,
}

/// The modifier keys held, one bit each: shift, control, alt, super, hyper,
/// meta.
#[derive(Debug, Clone, Copy, PartialEq, Eq, Structural)]
pub struct KeyModifiers {
    pub bits: u8,
}

/// A key press.
#[derive(Debug, Clone, Copy, PartialEq, Eq, Structural)]
pub struct KeyEvent {
    pub code: KeyCode,
    pub modifiers: KeyModifiers,
}

/// A key with exactly these modifiers.
#[derive(Debug, Clone, Copy, PartialEq, Eq, Structural)]
pub struct KeyBind {
    pub code: KeyCode,
    pub modifiers: KeyModifiers,
}

/// One binding: any of its keys sends its message; `label` names it in the
/// hints.
pub struct Binding {
    pub keys: Vec<KeyBind>,
    pub label: &'static str,
    pub message: Message,
    pub show_in_hint: bool,
}

pub const SHIFT_BIT: u8 = 1;

pub const CONTROL_BIT: u8 = 2;

pub const ALT_BIT: u8 = 4;

impl KeyModifiers {
    pub fn none() -> (m: KeyModifiers)
        ensures
            m.bits == 0,
    {
        KeyModifiers { bits: 0 }
    }

    pub fn shift() -> (m: KeyModifiers)
        ensures
            m.bits == SHIFT_BIT,
    {
        KeyModifiers { bits: SHIFT_BIT }
    }

    pub fn control() -> (m: KeyModifiers)
        ensures
            m.bits == CONTROL_BIT,
    {
        KeyModifiers { bits: CONTROL_BIT }
    }

    pub fn alt() -> (m: KeyModifiers)
        ensures
            m.bits == ALT_BIT,
    {
        KeyModifiers { bits: ALT_BIT }
    }

    /// Whether every modifier of `other` is held.
    pub fn contains(&self, other: KeyModifiers) -> (b: bool)
        ensures
            b == (self.bits & other.bits == other.bits),
    {
        self.bits & other.bits == other.bits
    }

    /// Whether no modifier is held.
    pub fn is_empty(&self) -> (b: bool)
        ensures
            b == (self.bits == 0),
    {
        self.bits == 0
    }
}

impl KeyEvent {
    pub fn new(code: KeyCode, modifiers: KeyModifiers) -> (k: KeyEvent)
        ensures
            k.code == code && k.modifiers == modifiers,
    {
        KeyEvent { code, modifiers }
    }
}

/// A key as plain values: the key and its modifier bits.
pub type KeyModel = (KeyCode, u8);

pub open spec fn plain_key(c: KeyCode) -> KeyModel {
    (c, 0u8)
}

pub open spec fn shift_key(c: KeyCode) -> KeyModel {
    (c, SHIFT_BIT)
}

pub open spec fn ctrl_key(c: KeyCode) -> KeyModel {
    (c, CONTROL_BIT)
}

pub open spec fn key_model(k: KeyEvent) -> KeyModel {
    (k.code, k.modifiers.bits)
}

pub open spec fn bind_model(k: KeyBind) -> KeyModel {
    (k.code, k.modifiers.bits)
}

impl KeyBind {
    pub fn plain(code: KeyCode) -> (k: KeyBind)
        ensures
            bind_model(k) == plain_key(code),
    {
        KeyBind { code, modifiers: KeyModifiers::none() }
    }

    pub fn ctrl(c: char) -> (k: KeyBind)
        ensures
            bind_model(k) == ctrl_key(KeyCode::Char(c)),
    {
        KeyBind { code: KeyCode::Char(c), modifiers: KeyModifiers::control() }
    }

    pub fn shift(code: KeyCode) -> (k: KeyBind)
        ensures
            bind_model(k) == shift_key(code),
    {
        KeyBind { code, modifiers: KeyModifiers::shift() }
    }

    pub fn ctrl_code(code: KeyCode) -> (k: KeyBind)
        ensures
            bind_model(k) == ctrl_key(code),
    {
        KeyBind { code, modifiers: KeyModifiers::control() }
    }

    /// Whether `key` is this key with exactly these modifiers.
    pub fn matches(&self, key: &KeyEvent) -> (b: bool)
        ensures
            b == (bind_model(*self) == key_model(*key)),
    {
        key.code == self.code && key.modifiers.bits == self.modifiers.bits
    }
}

/// A binding as plain values: its keys, label, message and whether the
/// hints show it.
pub type BindingModel = (Seq<KeyModel>, Seq<char>, Message, bool);

pub open spec fn binding_model(b: Binding) -> BindingModel {
    (b.keys@.map_values(|k: KeyBind| bind_model(k)), b.label@, b.message, b.show_in_hint)
}

pub open spec fn binding_models(v: Seq<Binding>) -> Seq<BindingModel> {
    v.map_values(|b: Binding| binding_model(b))
}

fn binding(keys: Vec<KeyBind>, label: &'static str, message: Message, show_in_hint: bool) -> (b: Binding)
    ensures
        b.keys == keys && b.label == label && b.message == message && b.show_in_hint == show_in_hint,
{
    Binding { keys, label, message, show_in_hint }
}

fn bind1(k1: KeyBind, label: &'static str, message: Message, show_in_hint: bool) -> (b: Binding)
    ensures
        binding_model(b) == (seq![bind_model(k1)], label@, message, show_in_hint),
{
    let b = binding(vec![k1], label, message, show_in_hint);
    assert(b.keys@.map_values(|k: KeyBind| bind_model(k)) =~= seq![bind_model(k1)]);
    b
}

fn bind2(k1: KeyBind, k2: KeyBind, label: &'static str, message: Message, show_in_hint: bool) -> (b: Binding)
    ensures
        binding_model(b) == (seq![bind_model(k1), bind_model(k2)], label@, message, show_in_hint),
{
    let b = binding(vec![k1, k2], label, message, show_in_hint);
    assert(b.keys@.map_values(|k: KeyBind| bind_model(k)) =~= seq![bind_model(k1), bind_model(k2)]);
    b
}

fn bind3(k1: KeyBind, k2: KeyBind, k3: KeyBind, label: &'static str, message: Message, show_in_hint: bool) -> (b: Binding)
    ensures
        binding_model(b) == (seq![bind_model(k1), bind_model(k2), bind_model(k3)], label@, message, show_in_hint),
{
    let b = binding(vec![k1, k2, k3], label, message, show_in_hint);
    assert(b.keys@.map_values(|k: KeyBind| bind_model(k)) =~= seq![
        bind_model(k1),
        bind_model(k2),
        bind_model(k3),
    ]);
    b
}

impl Binding {
    /// Whether any of the keys is `key`.
    pub fn matches(&self, key: &KeyEvent) -> (b: bool)
        ensures
            b == binding_model(*self).0.contains(key_model(*key)),
    {
        let ghost ks = self.keys@.map_values(|k: KeyBind| bind_model(k));
        let mut i: usize = 0;
        while i < self.keys.len()
            invariant
                i <= self.keys.len(),
                ks == self.keys@.map_values(|k: KeyBind| bind_model(k)),
                forall|j: int| 0 <= j < i ==> ks[j] != key_model(*key),
            decreases self.keys.len() - i,
        {
            if self.keys[i].matches(key) {
                assert(ks[i as int] == key_model(*key));
                return true;
            }
            i = i + 1;
        }
        false
    }
}

/// The `file list` bindings.
pub open spec fn file_list_table() -> Seq<BindingModel> {
    seq![
        (seq![plain_key(KeyCode::Up)], "navigate"@, Message::MoveUp, true),
        (seq![plain_key(KeyCode::Down)], "navigate"@, Message::MoveDown, true),
        (seq![plain_key(KeyCode::Enter), plain_key(KeyCode::Right)], "diff"@, Message::SwitchPanel, true),
        (seq![plain_key(KeyCode::Char('/'))], "filter"@, Message::StartFilter, true),
        (seq![plain_key(KeyCode::Char('q'))], "quit"@, Message::Quit, false),
        (seq![plain_key(KeyCode::Char(' '))], "commands"@, Message::OpenWhichKey, true)
    ]
}

fn file_list_bindings() -> (v: Vec<Binding>)
    ensures
        binding_models(v@) == file_list_table(),
{
    let mut v: Vec<Binding> = Vec::new();
    v.push(bind1(KeyBind::plain(KeyCode::Up), "navigate", Message::MoveUp, true));
    v.push(bind1(KeyBind::plain(KeyCode::Down), "navigate", Message::MoveDown, true));
    v.push(bind2(KeyBind::plain(KeyCode::Enter), KeyBind::plain(KeyCode::Right), "diff", Message::SwitchPanel, true));
    v.push(bind1(KeyBind::plain(KeyCode::Char('/')), "filter", Message::StartFilter, true));
    v.push(bind1(KeyBind::plain(KeyCode::Char('q')), "quit", Message::Quit, false));
    v.push(bind1(KeyBind::plain(KeyCode::Char(' ')), "commands", Message::OpenWhichKey, true));
    assert(binding_models(v@) =~= file_list_table());
    v
}

/// The `diff hunk nav` bindings.
pub open spec fn diff_hunk_nav_table() -> Seq<BindingModel> {
    seq![
        (seq![shift_key(KeyCode::Down)], "scroll"@, Message::MoveDown, true),
        (seq![shift_key(KeyCode::Up)], "scroll"@, Message::MoveUp, true),
        (seq![plain_key(KeyCode::Up)], "hunks"@, Message::PrevHunk, true),
        (seq![plain_key(KeyCode::Down)], "hunks"@, Message::NextHunk, true),
        (seq![shift_key(KeyCode::Left)], "scroll"@, Message::ScrollLeft, true),
        (seq![shift_key(KeyCode::Right)], "scroll"@, Message::ScrollRight, true),
        (seq![plain_key(KeyCode::Left)], "files"@, Message::SwitchPanel, false),
        (seq![plain_key(KeyCode::Enter), plain_key(KeyCode::Right)], "lines"@, Message::EnterLineMode, true),
        (seq![plain_key(KeyCode::Char('q'))], "quit"@, Message::Quit, false),
        (seq![plain_key(KeyCode::Char(' '))], "commands"@, Message::OpenWhichKey, true)
    ]
}

fn diff_hunk_nav_bindings() -> (v: Vec<Binding>)
    ensures
        binding_models(v@) == diff_hunk_nav_table(),
{
    let mut v: Vec<Binding> = Vec::new();
    v.push(bind1(KeyBind::shift(KeyCode::Down), "scroll", Message::MoveDown, true));
    v.push(bind1(KeyBind::shift(KeyCode::Up), "scroll", Message::MoveUp, true));
    v.push(bind1(KeyBind::plain(KeyCode::Up), "hunks", Message::PrevHunk, true));
    v.push(bind1(KeyBind::plain(KeyCode::Down), "hunks", Message::NextHunk, true));
    v.push(bind1(KeyBind::shift(KeyCode::Left), "scroll", Message::ScrollLeft, true));
    v.push(bind1(KeyBind::shift(KeyCode::Right), "scroll", Message::ScrollRight, true));
    v.push(bind1(KeyBind::plain(KeyCode::Left), "files", Message::SwitchPanel, false));
    v.push(bind2(KeyBind::plain(KeyCode::Enter), KeyBind::plain(KeyCode::Right), "lines", Message::EnterLineMode, true));
    v.push(bind1(KeyBind::plain(KeyCode::Char('q')), "quit", Message::Quit, false));
    v.push(bind1(KeyBind::plain(KeyCode::Char(' ')), "commands", Message::OpenWhichKey, true));
    assert(binding_models(v@) =~= diff_hunk_nav_table());
    v
}

/// The `diff line nav` bindings.
pub open spec fn diff_line_nav_table() -> Seq<BindingModel> {
    seq![
        (seq![shift_key(KeyCode::Down)], "next hunk"@, Message::NextHunk, false),
        (seq![shift_key(KeyCode::Up)], "prev hunk"@, Message::PrevHunk, false),
        (seq![shift_key(KeyCode::Left)], "scroll ←"@, Message::ScrollLeft, false),
        (seq![shift_key(KeyCode::Right)], "scroll →"@, Message::ScrollRight, false),
        (seq![plain_key(KeyCode::Up)], "lines"@, Message::MoveUp, true),
        (seq![plain_key(KeyCode::Down)], "lines"@, Message::MoveDown, true),
        (seq![plain_key(KeyCode::Enter), plain_key(KeyCode::Right)], "toggle"@, Message::ToggleLine, true),
        (seq![plain_key(KeyCode::Esc), plain_key(KeyCode::Left), plain_key(KeyCode::Char('q'))], "back"@, Message::ExitLineMode, true),
        (seq![plain_key(KeyCode::Char(' '))], "commands"@, Message::OpenWhichKey, true)
    ]
}

fn diff_line_nav_bindings() -> (v: Vec<Binding>)
    ensures
        binding_models(v@) == diff_line_nav_table(),
{
    let mut v: Vec<Binding> = Vec::new();
    v.push(bind1(KeyBind::shift(KeyCode::Down), "next hunk", Message::NextHunk, false));
    v.push(bind1(KeyBind::shift(KeyCode::Up), "prev hunk", Message::PrevHunk, false));
    v.push(bind1(KeyBind::shift(KeyCode::Left), "scroll ←", Message::ScrollLeft, false));
    v.push(bind1(KeyBind::shift(KeyCode::Right), "scroll →", Message::ScrollRight, false));
    v.push(bind1(KeyBind::plain(KeyCode::Up), "lines", Message::MoveUp, true));
    v.push(bind1(KeyBind::plain(KeyCode::Down), "lines", Message::MoveDown, true));
    v.push(bind2(KeyBind::plain(KeyCode::Enter), KeyBind::plain(KeyCode::Right), "toggle", Message::ToggleLine, true));
    v.push(bind3(KeyBind::plain(KeyCode::Esc), KeyBind::plain(KeyCode::Left), KeyBind::plain(KeyCode::Char('q')), "back", Message::ExitLineMode, true));
    v.push(bind1(KeyBind::plain(KeyCode::Char(' ')), "commands", Message::OpenWhichKey, true));
    assert(binding_models(v@) =~= diff_line_nav_table());
    v
}

/// The `conflict nav` bindings.
pub open spec fn conflict_nav_table() -> Seq<BindingModel> {
    seq![
        (seq![plain_key(KeyCode::Up)], "navigate"@, Message::MoveUp, true),
        (seq![plain_key(KeyCode::Down)], "navigate"@, Message::MoveDown, true),
        (seq![plain_key(KeyCode::Left), plain_key(KeyCode::Esc), plain_key(KeyCode::Char('q'))], "back"@, Message::CloseConflict, true),
        (seq![plain_key(KeyCode::Char(' '))], "actions"@, Message::OpenWhichKey, true)
    ]
}

fn conflict_nav_bindings() -> (v: Vec<Binding>)
    ensures
        binding_models(v@) == conflict_nav_table(),
{
    let mut v: Vec<Binding> = Vec::new();
    v.push(bind1(KeyBind::plain(KeyCode::Up), "navigate", Message::MoveUp, true));
    v.push(bind1(KeyBind::plain(KeyCode::Down), "navigate", Message::MoveDown, true));
    v.push(bind3(KeyBind::plain(KeyCode::Left), KeyBind::plain(KeyCode::Esc), KeyBind::plain(KeyCode::Char('q')), "back", Message::CloseConflict, true));
    v.push(bind1(KeyBind::plain(KeyCode::Char(' ')), "actions", Message::OpenWhichKey, true));
    assert(binding_models(v@) =~= conflict_nav_table());
    v
}

/// The `confirm` bindings.
pub open spec fn confirm_table() -> Seq<BindingModel> {
    seq![
        (seq![plain_key(KeyCode::Char('y')), plain_key(KeyCode::Enter)], "yes"@, Message::ConfirmAction, true),
        (seq![plain_key(KeyCode::Char('n')), plain_key(KeyCode::Esc), plain_key(KeyCode::Char('q'))], "no"@, Message::CloseOverlay, true)
    ]
}

fn confirm_bindings() -> (v: Vec<Binding>)
    ensures
        binding_models(v@) == confirm_table(),
{
    let mut v: Vec<Binding> = Vec::new();
    v.push(bind2(KeyBind::plain(KeyCode::Char('y')), KeyBind::plain(KeyCode::Enter), "yes", Message::ConfirmAction, true));
    v.push(bind3(KeyBind::plain(KeyCode::Char('n')), KeyBind::plain(KeyCode::Esc), KeyBind::plain(KeyCode::Char('q')), "no", Message::CloseOverlay, true));
    assert(binding_models(v@) =~= confirm_table());
    v
}

/// The `commit input` bindings.
pub open spec fn commit_input_table() -> Seq<BindingModel> {
    seq![
        (seq![ctrl_key(KeyCode::Char('c'))], "cancel"@, Message::CloseOverlay, false),
        (seq![ctrl_key(KeyCode::Char('s')), ctrl_key(KeyCode::Char('d'))], "commit"@, Message::ConfirmCommit, true),
        (seq![plain_key(KeyCode::Esc)], "cancel"@, Message::CloseOverlay, true)
    ]
}

fn commit_input_bindings() -> (v: Vec<Binding>)
    ensures
        binding_models(v@) == commit_input_table(),
{
    let mut v: Vec<Binding> = Vec::new();
    v.push(bind1(KeyBind::ctrl('c'), "cancel", Message::CloseOverlay, false));
    v.push(bind2(KeyBind::ctrl('s'), KeyBind::ctrl('d'), "commit", Message::ConfirmCommit, true));
    v.push(bind1(KeyBind::plain(KeyCode::Esc), "cancel", Message::CloseOverlay, true));
    assert(binding_models(v@) =~= commit_input_table());
    v
}

/// The `git log` bindings.
pub open spec fn git_log_table() -> Seq<BindingModel> {
    seq![
        (seq![plain_key(KeyCode::Down)], "navigate"@, Message::MoveDown, false),
        (seq![plain_key(KeyCode::Up)], "navigate"@, Message::MoveUp, false),
        (seq![plain_key(KeyCode::Char('y'))], "yank hash"@, Message::YankToClipboard, true),
        (seq![plain_key(KeyCode::Enter)], "view"@, Message::ViewCommitDetail, true),
        (seq![plain_key(KeyCode::Char('r'))], "rebase"@, Message::StartRebase, true),
        (seq![plain_key(KeyCode::Esc), plain_key(KeyCode::Char('q'))], "close"@, Message::CloseOverlay, true)
    ]
}

fn git_log_bindings() -> (v: Vec<Binding>)
    ensures
        binding_models(v@) == git_log_table(),
{
    let mut v: Vec<Binding> = Vec::new();
    v.push(bind1(KeyBind::plain(KeyCode::Down), "navigate", Message::MoveDown, false));
    v.push(bind1(KeyBind::plain(KeyCode::Up), "navigate", Message::MoveUp, false));
    v.push(bind1(KeyBind::plain(KeyCode::Char('y')), "yank hash", Message::YankToClipboard, true));
    v.push(bind1(KeyBind::plain(KeyCode::Enter), "view", Message::ViewCommitDetail, true));
    v.push(bind1(KeyBind::plain(KeyCode::Char('r')), "rebase", Message::StartRebase, true));
    v.push(bind2(KeyBind::plain(KeyCode::Esc), KeyBind::plain(KeyCode::Char('q')), "close", Message::CloseOverlay, true));
    assert(binding_models(v@) =~= git_log_table());
    v
}

/// The `stash list` bindings.
pub open spec fn stash_list_table() -> Seq<BindingModel> {
    seq![
        (seq![plain_key(KeyCode::Down)], "navigate"@, Message::MoveDown, false),
        (seq![plain_key(KeyCode::Up)], "navigate"@, Message::MoveUp, false),
        (seq![plain_key(KeyCode::Char('p')), plain_key(KeyCode::Enter)], "pop"@, Message::StashPop, true),
        (seq![plain_key(KeyCode::Char('a'))], "apply"@, Message::StashApply, true),
        (seq![plain_key(KeyCode::Char('d'))], "drop"@, Message::StashDrop, true),
        (seq![plain_key(KeyCode::Esc), plain_key(KeyCode::Char('q'))], "close"@, Message::CloseOverlay, true)
    ]
}

fn stash_list_bindings() -> (v: Vec<Binding>)
    ensures
        binding_models(v@) == stash_list_table(),
{
    let mut v: Vec<Binding> = Vec::new();
    v.push(bind1(KeyBind::plain(KeyCode::Down), "navigate", Message::MoveDown, false));
    v.push(bind1(KeyBind::plain(KeyCode::Up), "navigate", Message::MoveUp, false));
    v.push(bind2(KeyBind::plain(KeyCode::Char('p')), KeyBind::plain(KeyCode::Enter), "pop", Message::StashPop, true));
    v.push(bind1(KeyBind::plain(KeyCode::Char('a')), "apply", Message::StashApply, true));
    v.push(bind1(KeyBind::plain(KeyCode::Char('d')), "drop", Message::StashDrop, true));
    v.push(bind2(KeyBind::plain(KeyCode::Esc), KeyBind::plain(KeyCode::Char('q')), "close", Message::CloseOverlay, true));
    assert(binding_models(v@) =~= stash_list_table());
    v
}

/// The `branch list` bindings.
pub open spec fn branch_list_table() -> Seq<BindingModel> {
    seq![
        (seq![plain_key(KeyCode::Down)], "navigate"@, Message::MoveDown, false),
        (seq![plain_key(KeyCode::Up)], "navigate"@, Message::MoveUp, false),
        (seq![plain_key(KeyCode::Enter)], "checkout"@, Message::CheckoutBranch, true),
        (seq![plain_key(KeyCode::Char('n'))], "new"@, Message::StartCreateBranch, true),
        (seq![plain_key(KeyCode::Esc), plain_key(KeyCode::Char('q'))], "close"@, Message::CloseOverlay, true)
    ]
}

fn branch_list_bindings() -> (v: Vec<Binding>)
    ensures
        binding_models(v@) == branch_list_table(),
{
    let mut v: Vec<Binding> = Vec::new();
    v.push(bind1(KeyBind::plain(KeyCode::Down), "navigate", Message::MoveDown, false));
    v.push(bind1(KeyBind::plain(KeyCode::Up), "navigate", Message::MoveUp, false));
    v.push(bind1(KeyBind::plain(KeyCode::Enter), "checkout", Message::CheckoutBranch, true));
    v.push(bind1(KeyBind::plain(KeyCode::Char('n')), "new", Message::StartCreateBranch, true));
    v.push(bind2(KeyBind::plain(KeyCode::Esc), KeyBind::plain(KeyCode::Char('q')), "close", Message::CloseOverlay, true));
    assert(binding_models(v@) =~= branch_list_table());
    v
}

/// The `commit detail` bindings.
pub open spec fn commit_detail_table() -> Seq<BindingModel> {
    seq![
        (seq![ctrl_key(KeyCode::Down)], "commit"@, Message::NextCommitDetail, true),
        (seq![ctrl_key(KeyCode::Up)], "commit"@, Message::PrevCommitDetail, true),
        (seq![shift_key(KeyCode::Down)], "scroll"@, Message::MoveDown, true),
        (seq![shift_key(KeyCode::Up)], "scroll"@, Message::MoveUp, true),
        (seq![plain_key(KeyCode::Down)], "hunk"@, Message::NextHunkCommitDetail, true),
        (seq![plain_key(KeyCode::Up)], "hunk"@, Message::PrevHunkCommitDetail, true),
        (seq![plain_key(KeyCode::Esc), plain_key(KeyCode::Char('q'))], "close"@, Message::CloseOverlay, true)
    ]
}

fn commit_detail_bindings() -> (v: Vec<Binding>)
    ensures
        binding_models(v@) == commit_detail_table(),
{
    let mut v: Vec<Binding> = Vec::new();
    v.push(bind1(KeyBind::ctrl_code(KeyCode::Down), "commit", Message::NextCommitDetail, true));
    v.push(bind1(KeyBind::ctrl_code(KeyCode::Up), "commit", Message::PrevCommitDetail, true));
    v.push(bind1(KeyBind::shift(KeyCode::Down), "scroll", Message::MoveDown, true));
    v.push(bind1(KeyBind::shift(KeyCode::Up), "scroll", Message::MoveUp, true));
    v.push(bind1(KeyBind::plain(KeyCode::Down), "hunk", Message::NextHunkCommitDetail, true));
    v.push(bind1(KeyBind::plain(KeyCode::Up), "hunk", Message::PrevHunkCommitDetail, true));
    v.push(bind2(KeyBind::plain(KeyCode::Esc), KeyBind::plain(KeyCode::Char('q')), "close", Message::CloseOverlay, true));
    assert(binding_models(v@) =~= commit_detail_table());
    v
}

/// The `rebase` bindings.
pub open spec fn rebase_table() -> Seq<BindingModel> {
    seq![
        (seq![shift_key(KeyCode::Down)], "reorder"@, Message::RebaseMoveDown, true),
        (seq![shift_key(KeyCode::Up)], "reorder"@, Message::RebaseMoveUp, true),
        (seq![plain_key(KeyCode::Down)], "navigate"@, Message::MoveDown, false),
        (seq![plain_key(KeyCode::Up)], "navigate"@, Message::MoveUp, false),
        (seq![plain_key(KeyCode::Char(' ')), plain_key(KeyCode::Char('c'))], "cycle"@, Message::RebaseCycleAction, true),
        (seq![plain_key(KeyCode::Enter)], "execute"@, Message::RebaseExecute, true),
        (seq![plain_key(KeyCode::Esc), plain_key(KeyCode::Char('q'))], "cancel"@, Message::CloseOverlay, true)
    ]
}

fn rebase_bindings() -> (v: Vec<Binding>)
    ensures
        binding_models(v@) == rebase_table(),
{
    let mut v: Vec<Binding> = Vec::new();
    v.push(bind1(KeyBind::shift(KeyCode::Down), "reorder", Message::RebaseMoveDown, true));
    v.push(bind1(KeyBind::shift(KeyCode::Up), "reorder", Message::RebaseMoveUp, true));
    v.push(bind1(KeyBind::plain(KeyCode::Down), "navigate", Message::MoveDown, false));
    v.push(bind1(KeyBind::plain(KeyCode::Up), "navigate", Message::MoveUp, false));
    v.push(bind2(KeyBind::plain(KeyCode::Char(' ')), KeyBind::plain(KeyCode::Char('c')), "cycle", Message::RebaseCycleAction, true));
    v.push(bind1(KeyBind::plain(KeyCode::Enter), "execute", Message::RebaseExecute, true));
    v.push(bind2(KeyBind::plain(KeyCode::Esc), KeyBind::plain(KeyCode::Char('q')), "cancel", Message::CloseOverlay, true));
    assert(binding_models(v@) =~= rebase_table());
    v
}

/// The `dirty checkout base` bindings.
pub open spec fn dirty_checkout_base_table() -> Seq<BindingModel> {
    seq![
        (seq![plain_key(KeyCode::Char('d'))], "discard & switch"@, Message::DirtyCheckoutDiscard, true),
        (seq![plain_key(KeyCode::Esc), plain_key(KeyCode::Char('c')), plain_key(KeyCode::Char('q'))], "cancel"@, Message::CloseOverlay, true)
    ]
}

fn dirty_checkout_base_bindings() -> (v: Vec<Binding>)
    ensures
        binding_models(v@) == dirty_checkout_base_table(),
{
    let mut v: Vec<Binding> = Vec::new();
    v.push(bind1(KeyBind::plain(KeyCode::Char('d')), "discard & switch", Message::DirtyCheckoutDiscard, true));
    v.push(bind3(KeyBind::plain(KeyCode::Esc), KeyBind::plain(KeyCode::Char('c')), KeyBind::plain(KeyCode::Char('q')), "cancel", Message::CloseOverlay, true));
    assert(binding_models(v@) =~= dirty_checkout_base_table());
    v
}

/// The bindings of a context.
pub open spec fn table_for(ctx: InputContext) -> Seq<BindingModel> {
    match ctx {
        InputContext::FileList => file_list_table(),
        InputContext::DiffHunkNav => diff_hunk_nav_table(),
        InputContext::DiffLineNav => diff_line_nav_table(),
        InputContext::ConflictNav => conflict_nav_table(),
        InputContext::Confirm => confirm_table(),
        InputContext::CommitInput => commit_input_table(),
        InputContext::GitLog => git_log_table(),
        InputContext::StashList => stash_list_table(),
        InputContext::BranchList => branch_list_table(),
        InputContext::CommitDetail => commit_detail_table(),
        InputContext::Rebase => rebase_table(),
    }
}

/// The bindings of a context.
pub fn bindings_for(ctx: InputContext) -> (v: Vec<Binding>)
    ensures
        binding_models(v@) == table_for(ctx),
{
    match ctx {
        InputContext::FileList => file_list_bindings(),
        InputContext::DiffHunkNav => diff_hunk_nav_bindings(),
        InputContext::DiffLineNav => diff_line_nav_bindings(),
        InputContext::ConflictNav => conflict_nav_bindings(),
        InputContext::Confirm => confirm_bindings(),
        InputContext::CommitInput => commit_input_bindings(),
        InputContext::GitLog => git_log_bindings(),
        InputContext::StashList => stash_list_bindings(),
        InputContext::BranchList => branch_list_bindings(),
        InputContext::CommitDetail => commit_detail_bindings(),
        InputContext::Rebase => rebase_bindings(),
    }
}

/// The popups' contexts.
pub open spec fn overlay_ctx(ctx: InputContext) -> bool {
    match ctx {
        InputContext::Confirm | InputContext::CommitInput | InputContext::GitLog
        | InputContext::StashList | InputContext::BranchList | InputContext::CommitDetail
        | InputContext::Rebase => true,
        _ => false,
    }
}

/// Whether `ctx` is a popup's context.
pub fn is_overlay(ctx: InputContext) -> (b: bool)
    ensures
        b == overlay_ctx(ctx),
{
    match ctx {
        InputContext::Confirm | InputContext::CommitInput | InputContext::GitLog
        | InputContext::StashList | InputContext::BranchList | InputContext::CommitDetail
        | InputContext::Rebase => true,
        _ => false,
    }
}

/// The message of the first binding of `t` that has key `k`.
pub open spec fn first_match(t: Seq<BindingModel>, k: KeyModel) -> Option<Message>
    decreases t.len(),
{
    if t.len() == 0 {
        None
    } else if t[0].0.contains(k) {
        Some(t[0].2)
    } else {
        first_match(t.drop_first(), k)
    }
}

/// What a key means in a context: Ctrl+C quits outside popups; otherwise
/// the first binding of the context with that key.
pub open spec fn resolve_spec(ctx: InputContext, k: KeyModel) -> Option<Message> {
    if !overlay_ctx(ctx) && k == ctrl_key(KeyCode::Char('c')) {
        Some(Message::Quit)
    } else {
        first_match(table_for(ctx), k)
    }
}

fn lookup(bs: &Vec<Binding>, key: &KeyEvent) -> (r: Option<Message>)
    ensures
        r == first_match(binding_models(bs@), key_model(*key)),
{
    let ghost t = binding_models(bs@);
    assert(t.skip(0) =~= t);
    let mut i: usize = 0;
    while i < bs.len()
        invariant
            i <= bs.len(),
            t == binding_models(bs@),
            first_match(t, key_model(*key)) == first_match(t.skip(i as int), key_model(*key)),
        decreases bs.len() - i,
    {
        assert(t.skip(i as int).drop_first() =~= t.skip(i + 1));
        assert(t.skip(i as int)[0] == binding_model(bs@[i as int]));
        if bs[i].matches(key) {
            return Some(bs[i].message);
        }
        i = i + 1;
    }
    assert(t.skip(bs.len() as int) =~= Seq::<BindingModel>::empty());
    None
}

/// Resolve a key event to a message given the current context.
pub fn resolve(ctx: InputContext, key: KeyEvent) -> (r: Option<Message>)
    ensures
        r == resolve_spec(ctx, key_model(key)),
{
    if !is_overlay(ctx) && key.modifiers.bits == CONTROL_BIT && key.code == KeyCode::Char('c') {
        return Some(Message::Quit);
    }
    let bs = bindings_for(ctx);
    lookup(&bs, &key)
}

/// The stash key of the dirty-checkout popup, offered only without conflicts.
pub open spec fn dirty_stash_binding() -> BindingModel {
    (seq![plain_key(KeyCode::Char('s'))], "stash & switch"@, Message::DirtyCheckoutStash, true)
}

fn dirty_checkout_stash_binding() -> (b: Binding)
    ensures
        binding_model(b) == dirty_stash_binding(),
{
    bind1(KeyBind::plain(KeyCode::Char('s')), "stash & switch", Message::DirtyCheckoutStash, true)
}

/// What a key means in the dirty-checkout popup.
pub open spec fn dirty_checkout_spec(k: KeyModel, has_conflicts: bool) -> Option<Message> {
    if !has_conflicts && k == plain_key(KeyCode::Char('s')) {
        Some(Message::DirtyCheckoutStash)
    } else {
        first_match(dirty_checkout_base_table(), k)
    }
}

/// Resolve keys for the dirty-checkout popup (stashing is offered only
/// without conflicts).
pub fn resolve_dirty_checkout(key: KeyEvent, has_conflicts: bool) -> (r: Option<Message>)
    ensures
        r == dirty_checkout_spec(key_model(key), has_conflicts),
{
    let stash = dirty_checkout_stash_binding();
    if !has_conflicts && stash.matches(&key) {
        assert(binding_model(stash).0 =~= seq![plain_key(KeyCode::Char('s'))]);
        return Some(stash.message);
    }
    proof {
        if !has_conflicts {
            assert(binding_model(stash).0[0] == plain_key(KeyCode::Char('s')));
        }
    }
    let bs = dirty_checkout_base_bindings();
    lookup(&bs, &key)
}


/// How a key is written.
pub open spec fn key_name(c: KeyCode) -> Seq<char> {
    match c {
        KeyCode::Down => "\u{2193}"@,
        KeyCode::Up => "\u{2191}"@,
        KeyCode::Left => "\u{2190}"@,
        KeyCode::Right => "\u{2192}"@,
        KeyCode::Enter => "Enter"@,
        KeyCode::Esc => "Esc"@,
        KeyCode::Char(ch) => if ch == ' ' {
            "Space"@
        } else {
            seq![ch]
        },
        KeyCode::Tab => "Tab"@,
        KeyCode::Backspace => "Backspace"@,
        KeyCode::Home => "Home"@,
        KeyCode::End => "End"@,
        KeyCode::PageUp => "PageUp"@,
        KeyCode::PageDown => "PageDown"@,
        KeyCode::BackTab => "BackTab"@,
        KeyCode::Delete => "Delete"@,
        KeyCode::Insert => "Insert"@,
        KeyCode::F(n) => "F("@ + dec_digits(n as nat) + ")"@,
        KeyCode::Null => "Null"@,
        KeyCode::CapsLock => "CapsLock"@,
        KeyCode::ScrollLock => "ScrollLock"@,
        KeyCode::NumLock => "NumLock"@,
        KeyCode::PrintScreen => "PrintScreen"@,
        KeyCode::Pause => "Pause"@,
        KeyCode::Menu => "Menu"@,
        KeyCode::KeypadBegin => "KeypadBegin"@,
        KeyCode::Media => "Media"@,
        KeyCode::Modifier => "Modifier"@,
    }
}

/// A key with its modifier, as the hints write it: `Ctrl+` and the key in
/// capitals, or `Shift+` and the key.
pub open spec fn display_spec(k: KeyModel) -> Seq<char> {
    if k.1 & CONTROL_BIT == CONTROL_BIT {
        "Ctrl+"@ + uppercase(key_name(k.0))
    } else if k.1 & SHIFT_BIT == SHIFT_BIT {
        "Shift+"@ + key_name(k.0)
    } else {
        key_name(k.0)
    }
}

fn key_name_text(c: KeyCode) -> (s: String)
    ensures
        s@ == key_name(c),
{
    match c {
        KeyCode::Down => String::from_str("\u{2193}"),
        KeyCode::Up => String::from_str("\u{2191}"),
        KeyCode::Left => String::from_str("\u{2190}"),
        KeyCode::Right => String::from_str("\u{2192}"),
        KeyCode::Enter => String::from_str("Enter"),
        KeyCode::Esc => String::from_str("Esc"),
        KeyCode::Char(ch) => {
            if ch == ' ' {
                String::from_str("Space")
            } else {
                let mut s = String::new();
                s.push(ch);
                assert(s@ =~= seq![ch]);
                s
            }
        },
        KeyCode::Tab => String::from_str("Tab"),
        KeyCode::Backspace => String::from_str("Backspace"),
        KeyCode::Home => String::from_str("Home"),
        KeyCode::End => String::from_str("End"),
        KeyCode::PageUp => String::from_str("PageUp"),
        KeyCode::PageDown => String::from_str("PageDown"),
        KeyCode::BackTab => String::from_str("BackTab"),
        KeyCode::Delete => String::from_str("Delete"),
        KeyCode::Insert => String::from_str("Insert"),
        KeyCode::F(n) => {
            let mut s = String::from_str("F(");
            push_decimal(&mut s, n as u64);
            s.push_str(")");
            s
        },
        KeyCode::Null => String::from_str("Null"),
        KeyCode::CapsLock => String::from_str("CapsLock"),
        KeyCode::ScrollLock => String::from_str("ScrollLock"),
        KeyCode::NumLock => String::from_str("NumLock"),
        KeyCode::PrintScreen => String::from_str("PrintScreen"),
        KeyCode::Pause => String::from_str("Pause"),
        KeyCode::Menu => String::from_str("Menu"),
        KeyCode::KeypadBegin => String::from_str("KeypadBegin"),
        KeyCode::Media => String::from_str("Media"),
        KeyCode::Modifier => String::from_str("Modifier"),
    }
}

/// How the hints write a key.
pub fn display_key(kb: &KeyBind) -> (s: String)
    ensures
        s@ == display_spec(bind_model(*kb)),
{
    let name = key_name_text(kb.code);
    if kb.modifiers.contains(KeyModifiers::control()) {
        let up = to_upper(name.as_str());
        concat2("Ctrl+", up.as_str())
    } else if kb.modifiers.contains(KeyModifiers::shift()) {
        concat2("Shift+", name.as_str())
    } else {
        name
    }
}

/// How the hints write a binding's keys: each key, `/` between them.
pub open spec fn keys_text(ks: Seq<KeyModel>) -> Seq<char> {
    join_sep(ks.map_values(|k: KeyModel| display_spec(k)), "/"@)
}

/// How the hints write a binding's keys.
pub fn display_keys(keys: &Vec<KeyBind>) -> (s: String)
    ensures
        s@ == keys_text(keys@.map_values(|k: KeyBind| bind_model(k))),
{
    let mut parts: Vec<String> = Vec::new();
    let mut i: usize = 0;
    while i < keys.len()
        invariant
            i <= keys.len(),
            parts.deep_view() == keys@.map_values(|k: KeyBind| bind_model(k)).take(i as int).map_values(
                |k: KeyModel| display_spec(k),
            ),
        decreases keys.len() - i,
    {
        let ghost before = parts.deep_view();
        let d = display_key(&keys[i]);
        let ghost dv = d@;
        parts.push(d);
        assert(parts.deep_view() =~= before.push(dv));
        assert(parts.deep_view() =~= keys@.map_values(|k: KeyBind| bind_model(k)).take(i + 1).map_values(
            |k: KeyModel| display_spec(k),
        ));
        i = i + 1;
    }
    assert(keys@.map_values(|k: KeyBind| bind_model(k)).take(keys.len() as int) =~= keys@.map_values(
        |k: KeyBind| bind_model(k),
    ));
    join_strings(&parts, "/")
}

/// Whether every string starts with `p`.
pub open spec fn all_prefixed(ss: Seq<Seq<char>>, p: Seq<char>) -> bool {
    forall|i: int| 0 <= i < ss.len() ==> p.len() <= (#[trigger] ss[i]).len() && ss[i].take(p.len() as int) == p
}

/// Key texts merged: one shared `Shift+` or `Ctrl+` written once
/// (`Shift+↑`, `Shift+↓` give `Shift+↑/↓`), else all joined with `/`.
pub open spec fn merged(ss: Seq<Seq<char>>) -> Seq<char> {
    if ss.len() == 0 {
        Seq::empty()
    } else if ss.len() == 1 {
        ss[0]
    } else if all_prefixed(ss, "Shift+"@) {
        "Shift+"@ + join_sep(ss.map_values(|k: Seq<char>| k.skip("Shift+"@.len() as int)), "/"@)
    } else if all_prefixed(ss, "Ctrl+"@) {
        "Ctrl+"@ + join_sep(ss.map_values(|k: Seq<char>| k.skip("Ctrl+"@.len() as int)), "/"@)
    } else {
        join_sep(ss, "/"@)
    }
}

fn all_start_with(ss: &Vec<String>, p: &str) -> (b: bool)
    ensures
        b == all_prefixed(ss.deep_view(), p@),
{
    let mut i: usize = 0;
    while i < ss.len()
        invariant
            i <= ss.len(),
            forall|j: int| 0 <= j < i ==> p@.len() <= (#[trigger] ss.deep_view()[j]).len()
                && ss.deep_view()[j].take(p@.len() as int) == p@,
        decreases ss.len() - i,
    {
        assert(ss.deep_view()[i as int] == ss[i as int]@);
        if !starts_with(ss[i].as_str(), p) {
            return false;
        }
        i = i + 1;
    }
    true
}

fn strip_all(ss: &Vec<String>, p: &str) -> (out: Vec<String>)
    requires
        all_prefixed(ss.deep_view(), p@),
    ensures
        out.deep_view() == ss.deep_view().map_values(|k: Seq<char>| k.skip(p@.len() as int)),
{
    let n = p.unicode_len();
    let mut out: Vec<String> = Vec::new();
    let mut i: usize = 0;
    while i < ss.len()
        invariant
            i <= ss.len(),
            n == p@.len(),
            all_prefixed(ss.deep_view(), p@),
            out.deep_view() == ss.deep_view().take(i as int).map_values(|k: Seq<char>| k.skip(p@.len() as int)),
        decreases ss.len() - i,
    {
        assert(p@.len() <= ss.deep_view()[i as int].len());
        let m = ss[i].as_str().unicode_len();
        let rest = ss[i].as_str().substring_char(n, m);
        let ghost before = out.deep_view();
        assert(rest@ =~= ss.deep_view()[i as int].skip(p@.len() as int));
        out.push(rest.to_owned());
        assert(out.deep_view() =~= before.push(ss.deep_view()[i as int].skip(p@.len() as int)));
        assert(out.deep_view() =~= ss.deep_view().take(i + 1).map_values(|k: Seq<char>| k.skip(p@.len() as int)));
        i = i + 1;
    }
    assert(ss.deep_view().take(ss.len() as int) =~= ss.deep_view());
    out
}

/// Merge key texts that share a modifier prefix.
pub fn merge_key_displays(key_strs: &Vec<String>) -> (s: String)
    ensures
        s@ == merged(key_strs.deep_view()),
{
    if key_strs.len() == 0 {
        return String::new();
    }
    if key_strs.len() == 1 {
        return key_strs[0].clone();
    }
    if all_start_with(key_strs, "Shift+") {
        let rest = strip_all(key_strs, "Shift+");
        let j = join_strings(&rest, "/");
        return concat2("Shift+", j.as_str());
    }
    if all_start_with(key_strs, "Ctrl+") {
        let rest = strip_all(key_strs, "Ctrl+");
        let j = join_strings(&rest, "/");
        return concat2("Ctrl+", j.as_str());
    }
    join_strings(key_strs, "/")
}

/// Hint groups: for each label shown (first occurrence order), the key
/// texts of its bindings.
pub open spec fn hint_groups(t: Seq<BindingModel>) -> Seq<(Seq<Seq<char>>, Seq<char>)>
    decreases t.len(),
{
    if t.len() == 0 {
        Seq::empty()
    } else {
        let g = hint_groups(t.drop_last());
        let b = t.last();
        if !b.3 {
            g
        } else {
            match label_pos(g, b.1) {
                Some(i) => g.update(i, (g[i].0.push(keys_text(b.0)), g[i].1)),
                None => g.push((seq![keys_text(b.0)], b.1)),
            }
        }
    }
}

/// Index of the first group with this label.
pub open spec fn label_pos(g: Seq<(Seq<Seq<char>>, Seq<char>)>, label: Seq<char>) -> Option<int>
    decreases g.len(),
{
    if g.len() == 0 {
        None
    } else {
        match label_pos(g.drop_last(), label) {
            Some(i) => Some(i),
            None => if g.last().1 == label {
                Some(g.len() - 1)
            } else {
                None
            },
        }
    }
}

/// The hint line's items: merged keys and label, one per label.
pub open spec fn hint_items_spec(t: Seq<BindingModel>) -> Seq<(Seq<char>, Seq<char>)> {
    hint_groups(t).map_values(|g: (Seq<Seq<char>>, Seq<char>)| (merged(g.0), g.1))
}


pub open spec fn group_models(gs: Seq<(Vec<String>, &'static str)>) -> Seq<(Seq<Seq<char>>, Seq<char>)> {
    gs.map_values(|g: (Vec<String>, &'static str)| (g.0.deep_view(), g.1@))
}

proof fn lemma_label_pos_prefix(g: Seq<(Seq<Seq<char>>, Seq<char>)>, label: Seq<char>, i: int)
    requires
        0 <= i < g.len(),
        label_pos(g.take(i), label) is None,
        g[i].1 == label,
    ensures
        label_pos(g, label) == Some(i),
    decreases g.len(),
{
    if i < g.len() - 1 {
        assert(g.drop_last().take(i) =~= g.take(i));
        lemma_label_pos_prefix(g.drop_last(), label, i);
    } else {
        assert(g.drop_last() =~= g.take(i));
    }
}

proof fn lemma_label_pos_bound(g: Seq<(Seq<Seq<char>>, Seq<char>)>, label: Seq<char>)
    ensures
        label_pos(g, label) matches Some(i) ==> 0 <= i < g.len(),
    decreases g.len(),
{
    if g.len() > 0 {
        lemma_label_pos_bound(g.drop_last(), label);
    }
}

fn find_label(gs: &Vec<(Vec<String>, &'static str)>, label: &str) -> (r: Option<usize>)
    ensures
        match r {
            Some(j) => label_pos(group_models(gs@), label@) == Some(j as int),
            None => label_pos(group_models(gs@), label@) is None,
        },
{
    let ghost g = group_models(gs@);
    let mut i: usize = 0;
    while i < gs.len()
        invariant
            i <= gs.len(),
            g == group_models(gs@),
            label_pos(g.take(i as int), label@) is None,
        decreases gs.len() - i,
    {
        assert(g.take(i + 1).drop_last() =~= g.take(i as int));
        if str_eq(gs[i].1, label) {
            proof {
                lemma_label_pos_prefix(g, label@, i as int);
            }
            return Some(i);
        }
        i = i + 1;
    }
    assert(g.take(gs.len() as int) =~= g);
    None
}

/// The hint items of a list of bindings.
pub fn hint_items_of(bs: &Vec<Binding>) -> (out: Vec<(String, &'static str)>)
    ensures
        out@.map_values(|p: (String, &'static str)| (p.0@, p.1@)) == hint_items_spec(binding_models(bs@)),
{
    let ghost t = binding_models(bs@);
    let mut groups: Vec<(Vec<String>, &'static str)> = Vec::new();
    let mut i: usize = 0;
    while i < bs.len()
        invariant
            i <= bs.len(),
            t == binding_models(bs@),
            group_models(groups@) == hint_groups(t.take(i as int)),
        decreases bs.len() - i,
    {
        assert(t.take(i + 1).drop_last() =~= t.take(i as int));
        let b = &bs[i];
        if b.show_in_hint {
            let ks = display_keys(&b.keys);
            let ghost g = group_models(groups@);
            proof {
                lemma_label_pos_bound(g, b.label@);
            }
            match find_label(&groups, b.label) {
                Some(j) => {
                    let mut e = groups.remove(j);
                    let ghost kv = ks@;
                    e.0.push(ks);
                    let ghost ev = (e.0.deep_view(), e.1@);
                    assert(ev == (g[j as int].0.push(kv), g[j as int].1));
                    groups.insert(j, e);
                    assert(group_models(groups@) =~= g.update(j as int, ev));
                },
                None => {
                    let mut ksv: Vec<String> = Vec::new();
                    let ghost kv = ks@;
                    ksv.push(ks);
                    assert(ksv.deep_view() =~= seq![kv]);
                    groups.push((ksv, b.label));
                    assert(group_models(groups@) =~= g.push((seq![kv], b.label@)));
                },
            }
        }
        i = i + 1;
    }
    assert(t.take(bs.len() as int) =~= t);
    let mut out: Vec<(String, &'static str)> = Vec::new();
    let ghost gm = group_models(groups@);
    let mut k: usize = 0;
    while k < groups.len()
        invariant
            k <= groups.len(),
            gm == group_models(groups@),
            out@.map_values(|p: (String, &'static str)| (p.0@, p.1@)) == gm.take(k as int).map_values(
                |g: (Seq<Seq<char>>, Seq<char>)| (merged(g.0), g.1),
            ),
        decreases groups.len() - k,
    {
        let m = merge_key_displays(&groups[k].0);
        let ghost before = out@.map_values(|p: (String, &'static str)| (p.0@, p.1@));
        let ghost mv = m@;
        out.push((m, groups[k].1));
        assert(out@.map_values(|p: (String, &'static str)| (p.0@, p.1@)) =~= before.push((mv, groups[k as int].1@)));
        assert(gm.take(k + 1).map_values(|g: (Seq<Seq<char>>, Seq<char>)| (merged(g.0), g.1)) =~= gm.take(
            k as int,
        ).map_values(|g: (Seq<Seq<char>>, Seq<char>)| (merged(g.0), g.1)).push((merged(gm[k as int].0), gm[k as int].1)));
        k = k + 1;
    }
    assert(gm.take(groups.len() as int) =~= gm);
    out
}

/// The hint line of a context: merged keys and label, one item per label.
pub fn hint_items(ctx: InputContext) -> (out: Vec<(String, &'static str)>)
    ensures
        out@.map_values(|p: (String, &'static str)| (p.0@, p.1@)) == hint_items_spec(table_for(ctx)),
{
    let bs = bindings_for(ctx);
    hint_items_of(&bs)
}

/// The dirty-checkout popup's hint lines: the stash key (or why it is not
/// offered), then each shown binding, as written keys and label.
pub open spec fn dirty_hints_spec(has_conflicts: bool) -> Seq<(Option<Seq<char>>, Seq<char>)> {
    let first = if has_conflicts {
        (None, " Stash unavailable (unmerged files)"@)
    } else {
        (Some(keys_text(dirty_stash_binding().0)), dirty_stash_binding().1)
    };
    seq![first] + dirty_checkout_base_table().filter(|b: BindingModel| b.3).map_values(
        |b: BindingModel| (Some(keys_text(b.0)), b.1),
    )
}

/// The dirty-checkout popup's hint lines.
pub fn dirty_checkout_hints(has_conflicts: bool) -> (out: Vec<(Option<String>, &'static str)>)
    ensures
        out@.map_values(|p: (Option<String>, &'static str)| (match p.0 {
            Some(k) => Some(k@),
            None => None,
        }, p.1@)) == dirty_hints_spec(has_conflicts),
{
    let mut out: Vec<(Option<String>, &'static str)> = Vec::new();
    if has_conflicts {
        out.push((None, " Stash unavailable (unmerged files)"));
    } else {
        let stash = dirty_checkout_stash_binding();
        out.push((Some(display_keys(&stash.keys)), stash.label));
    }
    let bs = dirty_checkout_base_bindings();
    let ghost t = binding_models(bs@);
    let ghost first = out@.map_values(|p: (Option<String>, &'static str)| (match p.0 {
        Some(k) => Some(k@),
        None => None,
    }, p.1@));
    assert(t.take(0).filter(|b: BindingModel| b.3) =~= Seq::<BindingModel>::empty()) by {
        reveal(Seq::filter);
    }
    let mut i: usize = 0;
    while i < bs.len()
        invariant
            i <= bs.len(),
            t == binding_models(bs@),
            out@.map_values(|p: (Option<String>, &'static str)| (match p.0 {
                Some(k) => Some(k@),
                None => None,
            }, p.1@)) == first + t.take(i as int).filter(|b: BindingModel| b.3).map_values(
                |b: BindingModel| (Some(keys_text(b.0)), b.1),
            ),
        decreases bs.len() - i,
    {
        let ghost before = out@.map_values(|p: (Option<String>, &'static str)| (match p.0 {
            Some(k) => Some(k@),
            None => None,
        }, p.1@));
        assert(t.take(i + 1).drop_last() =~= t.take(i as int));
        assert(t.take(i + 1).filter(|b: BindingModel| b.3) == if t[i as int].3 {
            t.take(i as int).filter(|b: BindingModel| b.3).push(t[i as int])
        } else {
            t.take(i as int).filter(|b: BindingModel| b.3)
        }) by {
            reveal(Seq::filter);
            assert(t.take(i + 1).drop_last() =~= t.take(i as int));
            assert(t.take(i + 1).last() == t[i as int]);
        }
        if bs[i].show_in_hint {
            let ks = display_keys(&bs[i].keys);
            let ghost kv = ks@;
            out.push((Some(ks), bs[i].label));
            assert(out@.map_values(|p: (Option<String>, &'static str)| (match p.0 {
                Some(k) => Some(k@),
                None => None,
            }, p.1@)) =~= before.push((Some(kv), bs[i as int].label@)));
        }
        i = i + 1;
    }
    assert(t.take(bs.len() as int) =~= t);
    out
}

/// The runs of a hint line: each item's keys in `key_color` and
/// `:label` in `label_color`, items two spaces apart.
pub open spec fn hint_runs(items: Seq<(Seq<char>, Seq<char>)>, key_color: Color, label_color: Color) -> Seq<StyledModel>
    decreases items.len(),
{
    if items.len() == 0 {
        Seq::empty()
    } else {
        let prev = hint_runs(items.drop_last(), key_color, label_color);
        let it = items.last();
        (if items.len() > 1 {
            prev.push(plain("  "@))
        } else {
            prev
        }) + seq![in_fg(it.0, key_color), in_fg(seq![':'] + it.1, label_color)]
    }
}

/// The hint line of a context, in the theme's colours.
pub fn hint_line(ctx: InputContext, theme: &Theme) -> (l: Vec<Styled>)
    ensures
        line_model(l@) == hint_runs(hint_items_spec(table_for(ctx)), theme.yellow, theme.fg_dim),
{
    let items = hint_items(ctx);
    let ghost im = items@.map_values(|p: (String, &'static str)| (p.0@, p.1@));
    let mut l: Vec<Styled> = Vec::new();
    let mut i: usize = 0;
    while i < items.len()
        invariant
            i <= items.len(),
            im == items@.map_values(|p: (String, &'static str)| (p.0@, p.1@)),
            line_model(l@) == hint_runs(im.take(i as int), theme.yellow, theme.fg_dim),
            l.len() == 0 <==> i == 0,
        decreases items.len() - i,
    {
        assert(im.take(i + 1).drop_last() =~= im.take(i as int));
        if l.len() > 0 {
            push_run(&mut l, span_lit("  ", None, None, false));
        }
        push_run(&mut l, span(items[i].0.clone(), Some(theme.yellow), None, false));
        let mut label = String::new();
        label.push(':');
        label.push_str(items[i].1);
        push_run(&mut l, span(label, Some(theme.fg_dim), None, false));
        i = i + 1;
    }
    assert(im.take(items.len() as int) =~= im);
    l
}

/// One line of the dirty-checkout hints: ` [keys] ` and the label, or the
/// label alone.
pub open spec fn dirty_hint_runs(item: (Option<Seq<char>>, Seq<char>), key_color: Color, label_color: Color) -> Seq<StyledModel> {
    match item.0 {
        Some(k) => seq![in_fg(" ["@ + k + "] "@, key_color), in_fg(item.1, label_color)],
        None => seq![in_fg(item.1, label_color)],
    }
}

/// The dirty-checkout popup's hint lines, in the theme's colours.
pub fn dirty_checkout_hint_line(has_conflicts: bool, theme: &Theme) -> (ls: Vec<Vec<Styled>>)
    ensures
        lines_model(ls@) == dirty_hints_spec(has_conflicts).map_values(
            |it: (Option<Seq<char>>, Seq<char>)| dirty_hint_runs(it, theme.yellow, theme.fg_dim),
        ),
{
    let items = dirty_checkout_hints(has_conflicts);
    let ghost im = items@.map_values(|p: (Option<String>, &'static str)| (match p.0 {
        Some(k) => Some(k@),
        None => None,
    }, p.1@));
    let mut ls: Vec<Vec<Styled>> = Vec::new();
    let mut i: usize = 0;
    while i < items.len()
        invariant
            i <= items.len(),
            im == items@.map_values(|p: (Option<String>, &'static str)| (match p.0 {
                Some(k) => Some(k@),
                None => None,
            }, p.1@)),
            lines_model(ls@) == im.take(i as int).map_values(
                |it: (Option<Seq<char>>, Seq<char>)| dirty_hint_runs(it, theme.yellow, theme.fg_dim),
            ),
        decreases items.len() - i,
    {
        let mut l: Vec<Styled> = Vec::new();
        match &items[i].0 {
            Some(k) => {
                let mut t = String::new();
                t.push_str(" [");
                t.push_str(k.as_str());
                t.push_str("] ");
                push_run(&mut l, span(t, Some(theme.yellow), None, false));
            },
            None => {},
        }
        push_run(&mut l, span_lit(items[i].1, Some(theme.fg_dim), None, false));
        assert(line_model(l@) =~= dirty_hint_runs(im[i as int], theme.yellow, theme.fg_dim));
        push_line(&mut ls, l);
        assert(im.take(i + 1) =~= im.take(i as int).push(im[i as int]));
        i = i + 1;
    }
    assert(im.take(items.len() as int) =~= im);
    ls
}

} // verus!
