//! What each popup shows: titles, lines and list items.
use vstd::prelude::*;
use vstd::string::StrSliceExecFns;

use crate::app::{RebaseAction, RebaseEntry, WhichKeyEntry};
use crate::log::{BranchEntry, LogEntry, StashEntry};
use crate::styled::{
    blinking, bold_fg, empty_line, in_fg, line_model, lines_model, no_lines, one_run, plain, push_line,
    push_run, push_spaces, right_aligned, span, span_lit, spaces, Styled, StyledModel,
};
use crate::text::{dec_digits, join_sep, join_strings, push_decimal, push_decimal_wide};
use crate::text_input::TextInput;
use crate::theme::{Color, Theme};

verus! {

broadcast use vstd::seq_lib::group_seq_properties;

/// The confirmation popup: the question and the two answers.
pub open spec fn confirm_spec(message: Seq<char>, theme: Theme) -> Seq<Seq<StyledModel>> {
    seq![
        Seq::empty(),
        seq![in_fg(message, theme.fg)],
        Seq::empty(),
        seq![
            bold_fg(" [y/Enter] "@, theme.green),
            in_fg("Yes  "@, theme.fg_dim),
            bold_fg(" [n/Esc] "@, theme.red),
            in_fg("No"@, theme.fg_dim),
        ],
    ]
}

/// The confirmation popup's lines.
pub fn confirm_lines(message: &String, theme: &Theme) -> (ls: Vec<Vec<Styled>>)
    ensures
        lines_model(ls@) == confirm_spec(message@, *theme),
{
    let mut ls = no_lines();
    push_line(&mut ls, empty_line());
    push_line(&mut ls, one_run(span(message.clone(), Some(theme.fg), None, false)));
    push_line(&mut ls, empty_line());
    let mut l = empty_line();
    push_run(&mut l, span_lit(" [y/Enter] ", Some(theme.green), None, true));
    push_run(&mut l, span_lit("Yes  ", Some(theme.fg_dim), None, false));
    push_run(&mut l, span_lit(" [n/Esc] ", Some(theme.red), None, true));
    push_run(&mut l, span_lit("No", Some(theme.fg_dim), None, false));
    push_line(&mut ls, l);
    assert(lines_model(ls@) =~~= confirm_spec(message@, *theme));
    ls
}

/// The popup asking what to do with uncommitted changes before switching
/// branch: stash (unless files are unmerged), discard, or cancel.
pub open spec fn dirty_checkout_spec(branch: Seq<char>, has_conflicts: bool, theme: Theme) -> Seq<Seq<StyledModel>> {
    seq![
        Seq::empty(),
        seq![in_fg("You have uncommitted changes."@, theme.fg)],
        seq![in_fg("Switch to "@ + branch + "?"@, theme.yellow)],
        Seq::empty(),
        if has_conflicts {
            seq![in_fg(" Stash unavailable (unmerged files)"@, theme.fg_dim)]
        } else {
            seq![bold_fg(" [s] "@, theme.cyan), in_fg("Stash & switch"@, theme.fg_dim)]
        },
        seq![bold_fg(" [d] "@, theme.red), in_fg("Discard & switch"@, theme.fg_dim)],
        seq![bold_fg(" [Esc] "@, theme.fg_dim), in_fg("Cancel"@, theme.fg_dim)],
    ]
}

/// The dirty-checkout popup's lines.
pub fn dirty_checkout_lines(branch: &String, has_conflicts: bool, theme: &Theme) -> (ls: Vec<Vec<Styled>>)
    ensures
        lines_model(ls@) == dirty_checkout_spec(branch@, has_conflicts, *theme),
{
    let mut ls = no_lines();
    push_line(&mut ls, empty_line());
    push_line(&mut ls, one_run(span_lit("You have uncommitted changes.", Some(theme.fg), None, false)));
    let mut t = String::new();
    t.push_str("Switch to ");
    t.push_str(branch.as_str());
    t.push_str("?");
    push_line(&mut ls, one_run(span(t, Some(theme.yellow), None, false)));
    push_line(&mut ls, empty_line());
    if has_conflicts {
        push_line(&mut ls, one_run(span_lit(" Stash unavailable (unmerged files)", Some(theme.fg_dim), None, false)));
    } else {
        let mut l = empty_line();
        push_run(&mut l, span_lit(" [s] ", Some(theme.cyan), None, true));
        push_run(&mut l, span_lit("Stash & switch", Some(theme.fg_dim), None, false));
        push_line(&mut ls, l);
    }
    let mut d = empty_line();
    push_run(&mut d, span_lit(" [d] ", Some(theme.red), None, true));
    push_run(&mut d, span_lit("Discard & switch", Some(theme.fg_dim), None, false));
    push_line(&mut ls, d);
    let mut c = empty_line();
    push_run(&mut c, span_lit(" [Esc] ", Some(theme.fg_dim), None, true));
    push_run(&mut c, span_lit("Cancel", Some(theme.fg_dim), None, false));
    push_line(&mut ls, c);
    assert(lines_model(ls@) =~~= dirty_checkout_spec(branch@, has_conflicts, *theme));
    ls
}

/// The commit popup's title.
pub fn commit_input_title(amend: bool) -> (t: &'static str)
    ensures
        t@ == (if amend {
            " Amend Commit (Ctrl+S to confirm, Esc to cancel) "@
        } else {
            " Commit (Ctrl+S to confirm, Esc to cancel) "@
        }),
{
    if amend {
        " Amend Commit (Ctrl+S to confirm, Esc to cancel) "
    } else {
        " Commit (Ctrl+S to confirm, Esc to cancel) "
    }
}

/// The message being written, one line per line (a blank for an empty
/// one), then `~` down to `height` lines.
pub open spec fn commit_text_spec(lines: Seq<Seq<char>>, height: int, theme: Theme) -> Seq<Seq<StyledModel>> {
    lines.map_values(|l: Seq<char>| seq![in_fg(if l.len() == 0 { " "@ } else { l }, theme.fg)]) + Seq::new(
        if height > lines.len() { (height - lines.len()) as nat } else { 0 },
        |_i: int| seq![in_fg("~"@, theme.fg_dim)],
    )
}

/// The commit popup's text area, `height` lines tall.
pub fn commit_text_lines(input: &TextInput, height: usize, theme: &Theme) -> (ls: Vec<Vec<Styled>>)
    ensures
        lines_model(ls@) == commit_text_spec(input.lines.deep_view(), height as int, *theme),
{
    let ghost src = input.lines.deep_view();
    let mut ls = no_lines();
    let mut i: usize = 0;
    while i < input.lines.len()
        invariant
            i <= input.lines.len(),
            src == input.lines.deep_view(),
            lines_model(ls@) == src.take(i as int).map_values(
                |l: Seq<char>| seq![in_fg(if l.len() == 0 { " "@ } else { l }, theme.fg)],
            ),
        decreases input.lines.len() - i,
    {
        let t = &input.lines[i];
        let shown = if t.unicode_len() == 0 {
            " ".to_owned()
        } else {
            t.clone()
        };
        push_line(&mut ls, one_run(span(shown, Some(theme.fg), None, false)));
        assert(src.take(i + 1) =~= src.take(i as int).push(src[i as int]));
        i = i + 1;
    }
    assert(src.take(input.lines.len() as int) =~= src);
    let ghost text = lines_model(ls@);
    let mut k: usize = input.lines.len();
    while k < height
        invariant
            input.lines.len() <= k,
            k == input.lines.len() || k <= height,
            lines_model(ls@) == text + Seq::new(
                (k - input.lines.len()) as nat,
                |_i: int| seq![in_fg("~"@, theme.fg_dim)],
            ),
        decreases height - k,
    {
        push_line(&mut ls, one_run(span_lit("~", Some(theme.fg_dim), None, false)));
        assert(Seq::new((k + 1 - input.lines.len()) as nat, |_i: int| seq![in_fg("~"@, theme.fg_dim)]) =~= Seq::new(
            (k - input.lines.len()) as nat,
            |_i: int| seq![in_fg("~"@, theme.fg_dim)],
        ).push(seq![in_fg("~"@, theme.fg_dim)]));
        k = k + 1;
    }
    assert(lines_model(ls@) =~= commit_text_spec(src, height as int, *theme));
    ls
}

/// The commit popup's fixed hint.
pub fn commit_hint_lines(theme: &Theme) -> (ls: Vec<Vec<Styled>>)
    ensures
        lines_model(ls@) == seq![
            Seq::<StyledModel>::empty(),
            seq![in_fg(" Ctrl+S: commit  Esc: cancel  Enter: new line "@, theme.fg_dim)],
        ],
{
    let mut ls = no_lines();
    push_line(&mut ls, empty_line());
    push_line(&mut ls, one_run(span_lit(" Ctrl+S: commit  Esc: cancel  Enter: new line ", Some(theme.fg_dim), None, false)));
    ls
}

/// One commit of the log: hash, date, author, refs, message.
pub open spec fn log_item_spec(e: LogEntry, theme: Theme) -> Seq<StyledModel> {
    seq![
        bold_fg(e.hash@ + " "@, theme.yellow),
        in_fg(e.date@ + " "@, theme.fg_dim),
        in_fg(e.author@ + " "@, theme.green),
    ] + e.refs.deep_view().map_values(|r: Seq<char>| bold_fg("("@ + r + ") "@, theme.cyan)) + seq![
        in_fg(e.message@, theme.fg),
    ]
}

fn log_item(e: &LogEntry, theme: &Theme) -> (l: Vec<Styled>)
    ensures
        line_model(l@) == log_item_spec(*e, *theme),
{
    let mut l = empty_line();
    let mut h = e.hash.clone();
    h.push_str(" ");
    push_run(&mut l, span(h, Some(theme.yellow), None, true));
    let mut d = e.date.clone();
    d.push_str(" ");
    push_run(&mut l, span(d, Some(theme.fg_dim), None, false));
    let mut a = e.author.clone();
    a.push_str(" ");
    push_run(&mut l, span(a, Some(theme.green), None, false));
    let ghost head = line_model(l@);
    let ghost rs = e.refs.deep_view();
    let mut i: usize = 0;
    while i < e.refs.len()
        invariant
            i <= e.refs.len(),
            rs == e.refs.deep_view(),
            line_model(l@) == head + rs.take(i as int).map_values(
                |r: Seq<char>| bold_fg("("@ + r + ") "@, theme.cyan),
            ),
        decreases e.refs.len() - i,
    {
        let mut t = String::new();
        t.push_str("(");
        t.push_str(e.refs[i].as_str());
        t.push_str(") ");
        push_run(&mut l, span(t, Some(theme.cyan), None, true));
        assert(rs.take(i + 1) =~= rs.take(i as int).push(rs[i as int]));
        i = i + 1;
    }
    assert(rs.take(e.refs.len() as int) =~= rs);
    push_run(&mut l, span(e.message.clone(), Some(theme.fg), None, false));
    assert(line_model(l@) =~= log_item_spec(*e, *theme));
    l
}

/// The log popup's items.
pub fn log_items(entries: &Vec<LogEntry>, theme: &Theme) -> (ls: Vec<Vec<Styled>>)
    ensures
        lines_model(ls@) == entries@.map_values(|e: LogEntry| log_item_spec(e, *theme)),
{
    let mut ls = no_lines();
    let mut i: usize = 0;
    while i < entries.len()
        invariant
            i <= entries.len(),
            lines_model(ls@) == entries@.take(i as int).map_values(|e: LogEntry| log_item_spec(e, *theme)),
        decreases entries.len() - i,
    {
        push_line(&mut ls, log_item(&entries[i], theme));
        assert(entries@.take(i + 1) =~= entries@.take(i as int).push(entries@[i as int]));
        i = i + 1;
    }
    assert(entries@.take(entries.len() as int) =~= entries@);
    ls
}

/// The log popup's title, with the number of commits.
pub fn log_title(n: usize) -> (t: String)
    ensures
        t@ == " Git Log ("@ + dec_digits(n as nat) + " commits) "@,
{
    let mut t = String::new();
    t.push_str(" Git Log (");
    push_decimal(&mut t, n as u64);
    t.push_str(" commits) ");
    t
}

/// The keys along the bottom of the log popup.
pub open spec fn log_keys_spec(theme: Theme) -> Seq<StyledModel> {
    seq![
        in_fg(" y"@, theme.yellow),
        in_fg(":yank hash  "@, theme.fg_dim),
        in_fg("Enter"@, theme.yellow),
        in_fg(":view  "@, theme.fg_dim),
        in_fg("r"@, theme.yellow),
        in_fg(":rebase  "@, theme.fg_dim),
        in_fg("q/Esc"@, theme.yellow),
        in_fg(":close "@, theme.fg_dim),
    ]
}

/// The keys along the bottom of the log popup.
pub fn log_keys(theme: &Theme) -> (l: Vec<Styled>)
    ensures
        line_model(l@) == log_keys_spec(*theme),
{
    let mut l = empty_line();
    push_run(&mut l, span_lit(" y", Some(theme.yellow), None, false));
    push_run(&mut l, span_lit(":yank hash  ", Some(theme.fg_dim), None, false));
    push_run(&mut l, span_lit("Enter", Some(theme.yellow), None, false));
    push_run(&mut l, span_lit(":view  ", Some(theme.fg_dim), None, false));
    push_run(&mut l, span_lit("r", Some(theme.yellow), None, false));
    push_run(&mut l, span_lit(":rebase  ", Some(theme.fg_dim), None, false));
    push_run(&mut l, span_lit("q/Esc", Some(theme.yellow), None, false));
    push_run(&mut l, span_lit(":close ", Some(theme.fg_dim), None, false));
    assert(line_model(l@) =~= log_keys_spec(*theme));
    l
}

/// The branch popup's title: creating a branch, or the list.
pub fn branch_list_title(creating: bool) -> (t: &'static str)
    ensures
        t@ == (if creating {
            " New Branch (Enter to create, Esc to cancel) "@
        } else {
            " Branches [Enter]checkout [n]ew [q]close "@
        }),
{
    if creating {
        " New Branch (Enter to create, Esc to cancel) "
    } else {
        " Branches [Enter]checkout [n]ew [q]close "
    }
}

/// The name of the branch being created, with a cursor.
pub open spec fn new_branch_spec(name: Seq<char>, theme: Theme) -> Seq<Seq<StyledModel>> {
    seq![
        Seq::empty(),
        seq![in_fg("  Branch name:"@, theme.fg)],
        seq![plain("  "@), in_fg(name, theme.cyan), ("_"@, Some(theme.fg), None, false, true)],
    ]
}

/// The lines of the branch being created.
pub fn new_branch_lines(name: &String, theme: &Theme) -> (ls: Vec<Vec<Styled>>)
    ensures
        lines_model(ls@) == new_branch_spec(name@, *theme),
{
    let mut ls = no_lines();
    push_line(&mut ls, empty_line());
    push_line(&mut ls, one_run(span_lit("  Branch name:", Some(theme.fg), None, false)));
    let mut l = empty_line();
    push_run(&mut l, span_lit("  ", None, None, false));
    push_run(&mut l, span(name.clone(), Some(theme.cyan), None, false));
    push_run(&mut l, blinking("_", theme.fg));
    push_line(&mut ls, l);
    assert(lines_model(ls@) =~~= new_branch_spec(name@, *theme));
    ls
}

/// One branch: `*` before the current one; current green, remote red.
pub open spec fn branch_item_spec(e: BranchEntry, theme: Theme) -> Seq<StyledModel> {
    seq![
        in_fg(if e.is_current { "* "@ } else { "  "@ }, theme.green),
        in_fg(e.name@, if e.is_current {
            theme.green
        } else if e.is_remote {
            theme.red
        } else {
            theme.fg
        }),
    ]
}

/// The branch popup's items.
pub fn branch_items(entries: &Vec<BranchEntry>, theme: &Theme) -> (ls: Vec<Vec<Styled>>)
    ensures
        lines_model(ls@) == entries@.map_values(|e: BranchEntry| branch_item_spec(e, *theme)),
{
    let mut ls = no_lines();
    let mut i: usize = 0;
    while i < entries.len()
        invariant
            i <= entries.len(),
            lines_model(ls@) == entries@.take(i as int).map_values(|e: BranchEntry| branch_item_spec(e, *theme)),
        decreases entries.len() - i,
    {
        let e = &entries[i];
        let mut l = empty_line();
        push_run(&mut l, span_lit(if e.is_current { "* " } else { "  " }, Some(theme.green), None, false));
        let c = if e.is_current {
            theme.green
        } else if e.is_remote {
            theme.red
        } else {
            theme.fg
        };
        push_run(&mut l, span(e.name.clone(), Some(c), None, false));
        assert(line_model(l@) =~= branch_item_spec(*e, *theme));
        push_line(&mut ls, l);
        assert(entries@.take(i + 1) =~= entries@.take(i as int).push(entries@[i as int]));
        i = i + 1;
    }
    assert(entries@.take(entries.len() as int) =~= entries@);
    ls
}

/// The commit popup's title: position in the log, hash, refs and message.
pub open spec fn commit_detail_title_spec(
    index: nat,
    total: nat,
    hash: Seq<char>,
    refs: Seq<Seq<char>>,
    message: Seq<char>,
) -> Seq<char> {
    " ["@ + dec_digits(index + 1) + "/"@ + dec_digits(total) + "] "@ + hash + (if refs.len() == 0 {
        Seq::empty()
    } else {
        " ("@ + join_sep(refs, ", "@) + ")"@
    }) + " - "@ + message + " "@
}

/// The commit popup's title.
pub fn commit_detail_title(index: usize, total: usize, hash: &String, refs: &Vec<String>, message: &String) -> (t: String)
    ensures
        t@ == commit_detail_title_spec(index as nat, total as nat, hash@, refs.deep_view(), message@),
{
    let mut t = String::new();
    t.push_str(" [");
    push_decimal_wide(&mut t, index as u128 + 1);
    t.push_str("/");
    push_decimal(&mut t, total as u64);
    t.push_str("] ");
    t.push_str(hash.as_str());
    if refs.len() > 0 {
        t.push_str(" (");
        t.push_str(join_strings(refs, ", ").as_str());
        t.push_str(")");
    }
    t.push_str(" - ");
    t.push_str(message.as_str());
    t.push_str(" ");
    assert(t@ =~= commit_detail_title_spec(index as nat, total as nat, hash@, refs.deep_view(), message@));
    t
}

/// The keys along the bottom of the commit popup.
pub open spec fn commit_detail_keys_spec(theme: Theme) -> Seq<StyledModel> {
    seq![
        in_fg(" Shift+\u{2191}/\u{2193}"@, theme.yellow),
        in_fg(":prev/next  "@, theme.fg_dim),
        in_fg("\u{2191}/\u{2193}"@, theme.yellow),
        in_fg(":scroll  "@, theme.fg_dim),
        in_fg("q/Esc"@, theme.yellow),
        in_fg(":close "@, theme.fg_dim),
    ]
}

/// The keys along the bottom of the commit popup.
pub fn commit_detail_keys(theme: &Theme) -> (l: Vec<Styled>)
    ensures
        line_model(l@) == commit_detail_keys_spec(*theme),
{
    let mut l = empty_line();
    push_run(&mut l, span_lit(" Shift+\u{2191}/\u{2193}", Some(theme.yellow), None, false));
    push_run(&mut l, span_lit(":prev/next  ", Some(theme.fg_dim), None, false));
    push_run(&mut l, span_lit("\u{2191}/\u{2193}", Some(theme.yellow), None, false));
    push_run(&mut l, span_lit(":scroll  ", Some(theme.fg_dim), None, false));
    push_run(&mut l, span_lit("q/Esc", Some(theme.yellow), None, false));
    push_run(&mut l, span_lit(":close ", Some(theme.fg_dim), None, false));
    assert(line_model(l@) =~= commit_detail_keys_spec(*theme));
    l
}

/// The colour of a rebase action.
pub open spec fn action_color(a: RebaseAction, theme: Theme) -> Color {
    match a {
        RebaseAction::Pick => theme.green,
        RebaseAction::Squash => theme.yellow,
        RebaseAction::Drop => theme.red,
    }
}

/// One commit of the rebase list: action right-aligned, hash, message.
pub open spec fn rebase_item_spec(e: RebaseEntry, theme: Theme) -> Seq<StyledModel> {
    seq![
        bold_fg(right_aligned(action_word_of(e.action), 7) + " "@, action_color(e.action, theme)),
        in_fg(e.hash@ + " "@, theme.yellow),
        in_fg(e.message@, theme.fg),
    ]
}

pub open spec fn action_word_of(a: RebaseAction) -> Seq<char> {
    match a {
        RebaseAction::Pick => "pick"@,
        RebaseAction::Squash => "squash"@,
        RebaseAction::Drop => "drop"@,
    }
}

/// The rebase popup's items.
pub fn rebase_items(entries: &Vec<RebaseEntry>, theme: &Theme) -> (ls: Vec<Vec<Styled>>)
    ensures
        lines_model(ls@) == entries@.map_values(|e: RebaseEntry| rebase_item_spec(e, *theme)),
{
    let mut ls = no_lines();
    let mut i: usize = 0;
    while i < entries.len()
        invariant
            i <= entries.len(),
            lines_model(ls@) == entries@.take(i as int).map_values(|e: RebaseEntry| rebase_item_spec(e, *theme)),
        decreases entries.len() - i,
    {
        let e = &entries[i];
        let label = e.action.label();
        let n = label.unicode_len();
        let mut a = String::new();
        if n < 7 {
            push_spaces(&mut a, 7 - n);
        }
        a.push_str(label);
        a.push_str(" ");
        let c = match e.action {
            RebaseAction::Pick => theme.green,
            RebaseAction::Squash => theme.yellow,
            RebaseAction::Drop => theme.red,
        };
        let mut l = empty_line();
        push_run(&mut l, span(a, Some(c), None, true));
        let mut h = e.hash.clone();
        h.push_str(" ");
        push_run(&mut l, span(h, Some(theme.yellow), None, false));
        push_run(&mut l, span(e.message.clone(), Some(theme.fg), None, false));
        assert(line_model(l@) =~= rebase_item_spec(*e, *theme));
        push_line(&mut ls, l);
        assert(entries@.take(i + 1) =~= entries@.take(i as int).push(entries@[i as int]));
        i = i + 1;
    }
    assert(entries@.take(entries.len() as int) =~= entries@);
    ls
}

/// The rebase popup's title.
pub fn rebase_title() -> (t: &'static str)
    ensures
        t@ == " Interactive Rebase [Space]cycle [Shift+\u{2191}/\u{2193}]reorder [Enter]execute [q]cancel "@,
{
    " Interactive Rebase [Space]cycle [Shift+\u{2191}/\u{2193}]reorder [Enter]execute [q]cancel "
}

/// One stash: `stash@{n}` and its message.
pub open spec fn stash_item_spec(e: StashEntry, theme: Theme) -> Seq<StyledModel> {
    seq![bold_fg("stash@{"@ + dec_digits(e.index as nat) + "} "@, theme.yellow), in_fg(e.message@, theme.fg)]
}

/// The stash popup's items.
pub fn stash_items(entries: &Vec<StashEntry>, theme: &Theme) -> (ls: Vec<Vec<Styled>>)
    ensures
        lines_model(ls@) == entries@.map_values(|e: StashEntry| stash_item_spec(e, *theme)),
{
    let mut ls = no_lines();
    let mut i: usize = 0;
    while i < entries.len()
        invariant
            i <= entries.len(),
            lines_model(ls@) == entries@.take(i as int).map_values(|e: StashEntry| stash_item_spec(e, *theme)),
        decreases entries.len() - i,
    {
        let e = &entries[i];
        let mut t = String::new();
        t.push_str("stash@{");
        push_decimal(&mut t, e.index as u64);
        t.push_str("} ");
        let mut l = empty_line();
        push_run(&mut l, span(t, Some(theme.yellow), None, true));
        push_run(&mut l, span(e.message.clone(), Some(theme.fg), None, false));
        assert(line_model(l@) =~= stash_item_spec(*e, *theme));
        push_line(&mut ls, l);
        assert(entries@.take(i + 1) =~= entries@.take(i as int).push(entries@[i as int]));
        i = i + 1;
    }
    assert(entries@.take(entries.len() as int) =~= entries@);
    ls
}

/// The stash popup's title, with the number of stashes.
pub fn stash_title(n: usize) -> (t: String)
    ensures
        t@ == " Stashes ("@ + dec_digits(n as nat) + ") [p]op [a]pply [d]rop [q]close "@,
{
    let mut t = String::new();
    t.push_str(" Stashes (");
    push_decimal(&mut t, n as u64);
    t.push_str(") [p]op [a]pply [d]rop [q]close ");
    t
}

/// The number of rows of the command popup: its entries in three columns.
pub open spec fn which_key_rows(n: int) -> int {
    (n + 2) / 3
}

/// One entry of the command popup: key, label, and the padding to the next
/// column.
pub open spec fn which_key_cell(e: WhichKeyEntry, col_width: int, theme: Theme) -> Seq<StyledModel> {
    seq![
        bold_fg(seq![' ', e.key], theme.cyan),
        in_fg(seq![' '] + e.label@, theme.fg),
        plain(spaces(col_width - (2 + e.label.len()))),
    ]
}

/// The entry at `row`, `col` of the popup (columns are filled top to
/// bottom), if there is one.
pub open spec fn which_key_at(es: Seq<WhichKeyEntry>, row: int, col: int, col_width: int, theme: Theme) -> Seq<
    StyledModel,
> {
    let idx = row + col * which_key_rows(es.len() as int);
    if idx < es.len() {
        which_key_cell(es[idx], col_width, theme)
    } else {
        Seq::empty()
    }
}

/// The command popup's lines.
pub open spec fn which_key_spec(es: Seq<WhichKeyEntry>, col_width: int, theme: Theme) -> Seq<Seq<StyledModel>> {
    Seq::new(
        which_key_rows(es.len() as int) as nat,
        |r: int|
            which_key_at(es, r, 0, col_width, theme) + which_key_at(es, r, 1, col_width, theme) + which_key_at(
                es,
                r,
                2,
                col_width,
                theme,
            ),
    )
}

/// The command popup's lines, for columns `col_width` wide.
pub fn which_key_lines(entries: &Vec<WhichKeyEntry>, col_width: usize, theme: &Theme) -> (ls: Vec<Vec<Styled>>)
    requires
        entries.len() <= usize::MAX / 4,
    ensures
        lines_model(ls@) == which_key_spec(entries@, col_width as int, *theme),
{
    let n = entries.len();
    let rows = (n + 2) / 3;
    let mut ls = no_lines();
    let mut r: usize = 0;
    while r < rows
        invariant
            r <= rows,
            n == entries.len(),
            n <= usize::MAX / 4,
            rows == which_key_rows(n as int),
            lines_model(ls@) == which_key_spec(entries@, col_width as int, *theme).take(r as int),
        decreases rows - r,
    {
        let mut l = empty_line();
        let ghost start = line_model(l@);
        let mut col: usize = 0;
        while col < 3
            invariant
                col <= 3,
                r < rows,
                n == entries.len(),
                n <= usize::MAX / 4,
                rows == which_key_rows(n as int),
                line_model(l@) == if col == 0 {
                    Seq::empty()
                } else if col == 1 {
                    which_key_at(entries@, r as int, 0, col_width as int, *theme)
                } else if col == 2 {
                    which_key_at(entries@, r as int, 0, col_width as int, *theme) + which_key_at(
                        entries@,
                        r as int,
                        1,
                        col_width as int,
                        *theme,
                    )
                } else {
                    which_key_at(entries@, r as int, 0, col_width as int, *theme) + which_key_at(
                        entries@,
                        r as int,
                        1,
                        col_width as int,
                        *theme,
                    ) + which_key_at(entries@, r as int, 2, col_width as int, *theme)
                },
            decreases 3 - col,
        {
            let ghost before = line_model(l@);
            let idx = r + col * rows;
            if idx < n {
                let e = &entries[idx];
                let mut k = String::new();
                k.push(' ');
                k.push(e.key);
                push_run(&mut l, span(k, Some(theme.cyan), None, true));
                let mut lab = String::new();
                lab.push(' ');
                lab.push_str(e.label);
                push_run(&mut l, span(lab, Some(theme.fg), None, false));
                let len = e.label.len();
                let pad: usize = if len < col_width && col_width - len > 2 {
                    col_width - len - 2
                } else {
                    0
                };
                let mut p = String::new();
                push_spaces(&mut p, pad);
                push_run(&mut l, span(p, None, None, false));
                assert(line_model(l@) =~~= before + which_key_cell(entries@[idx as int], col_width as int, *theme));
            } else {
                assert(line_model(l@) =~= before + Seq::<StyledModel>::empty());
            }
            col = col + 1;
        }
        push_line(&mut ls, l);
        assert(which_key_spec(entries@, col_width as int, *theme).take(r + 1) =~= which_key_spec(
            entries@,
            col_width as int,
            *theme,
        ).take(r as int).push(which_key_spec(entries@, col_width as int, *theme)[r as int]));
        r = r + 1;
    }
    assert(which_key_spec(entries@, col_width as int, *theme).take(rows as int) =~= which_key_spec(
        entries@,
        col_width as int,
        *theme,
    ));
    ls
}

} // verus!
