//! What the conflict resolver shows: a status line, and the two sides of the
//! current conflict between the lines around it.
use vstd::prelude::*;

use crate::conflict::{ConflictResolution, ConflictState};
use crate::keymap::{hint_items_spec, hint_line, hint_runs, table_for, InputContext};
use crate::styled::{
    decimal, in_fg, line_model, lines_model, plain, push_line, push_run, span, span_lit, Styled,
    StyledModel,
};
use crate::text::dec_digits;
use crate::theme::{Color, Theme};

verus! {

broadcast use vstd::seq_lib::group_seq_properties;

/// The colours of one side: text, border, background and title.
#[derive(Debug, Clone, Copy, PartialEq, Eq, Structural)]
pub struct PanelStyle {
    pub fg: Color,
    pub border: Color,
    pub bg: Color,
    pub title_fg: Color,
}

/// The resolver's screen: the status runs, then for each side its title,
/// colours and rows, all scrolled by `scroll` rows.
pub struct ConflictView {
    pub status: Vec<Styled>,
    pub left_title: String,
    pub right_title: String,
    pub left_style: PanelStyle,
    pub right_style: PanelStyle,
    pub left_rows: Vec<Vec<Styled>>,
    pub right_rows: Vec<Vec<Styled>>,
    pub scroll: usize,
}

/// The label and colour of the current section's resolution.
pub open spec fn badge(cs: ConflictState, theme: Theme) -> (Seq<char>, Color) {
    match cs.sections[cs.current_section as int].resolution {
        ConflictResolution::Unresolved => ("UNRESOLVED"@, theme.red),
        ConflictResolution::Ours => (cs.left_name@, theme.cyan),
        ConflictResolution::Theirs => (cs.right_name@, theme.magenta),
        ConflictResolution::Both => ("BOTH"@, theme.green),
    }
}

/// The status line: file, section counter, resolution, then the key hints.
pub open spec fn status_runs(cs: ConflictState, theme: Theme) -> Seq<StyledModel> {
    seq![
        (" "@ + cs.file_path@ + " "@, Some(theme.fg), Some(theme.fg_dim), false, false),
        in_fg(
            " "@ + dec_digits((cs.current_section + 1) as nat) + "/"@ + dec_digits(cs.sections.len() as nat)
                + " "@,
            theme.yellow,
        ),
        (" "@ + badge(cs, theme).0 + " "@, Some(theme.black), Some(badge(cs, theme).1), true, false),
        plain("  "@),
    ] + hint_runs(hint_items_spec(table_for(InputContext::ConflictNav)), theme.yellow, theme.fg_dim)
}

/// A side's colours: its accent when its lines are picked, dimmed when
/// they are not (dimmer still while the resolver has no focus).
pub open spec fn panel_style(
    picked: bool,
    focused: bool,
    accent: Color,
    picked_bg: Color,
    title_accent: Color,
    theme: Theme,
) -> PanelStyle {
    let title_fg = if focused || picked {
        title_accent
    } else {
        theme.fg_dim
    };
    if picked {
        PanelStyle { fg: accent, border: accent, bg: picked_bg, title_fg }
    } else if focused {
        PanelStyle {
            fg: theme.conflict_dim_fg,
            border: theme.conflict_dim_border,
            bg: theme.conflict_dim_bg,
            title_fg,
        }
    } else {
        PanelStyle { fg: theme.fg_dim, border: theme.fg_dim, bg: theme.bg, title_fg }
    }
}

pub open spec fn left_picked(r: ConflictResolution) -> bool {
    r == ConflictResolution::Ours || r == ConflictResolution::Both
}

pub open spec fn right_picked(r: ConflictResolution) -> bool {
    r == ConflictResolution::Theirs || r == ConflictResolution::Both
}

pub open spec fn left_style_of(cs: ConflictState, focused: bool, theme: Theme) -> PanelStyle {
    panel_style(
        left_picked(cs.sections[cs.current_section as int].resolution),
        focused,
        theme.cyan,
        theme.conflict_ours_bg,
        theme.cyan,
        theme,
    )
}

pub open spec fn right_style_of(cs: ConflictState, focused: bool, theme: Theme) -> PanelStyle {
    panel_style(
        right_picked(cs.sections[cs.current_section as int].resolution),
        focused,
        theme.conflict_theirs_accent,
        theme.conflict_theirs_bg,
        theme.magenta,
        theme,
    )
}

/// The lines shown above the conflict: the previous section's suffix, or
/// the lines before the first conflict.
pub open spec fn context_before(cs: ConflictState) -> Seq<Seq<char>> {
    if cs.current_section == 0 {
        cs.prefix.deep_view()
    } else {
        cs.sections[cs.current_section - 1].suffix.deep_view()
    }
}

/// Context lines, indented and dimmed.
pub open spec fn context_rows(ls: Seq<Seq<char>>, dim: Color) -> Seq<Seq<StyledModel>> {
    ls.map_values(|l: Seq<char>| seq![in_fg("  "@ + l, dim)])
}

/// One side's conflict lines, marked with `~`.
pub open spec fn side_rows(ls: Seq<Seq<char>>, fg: Color, bg: Color, dim: Color) -> Seq<Seq<StyledModel>> {
    ls.map_values(|l: Seq<char>| seq![in_fg("~ "@, dim), (l, Some(fg), Some(bg), false, false)])
}

/// The rows of one side: context before, the side's lines, context after.
pub open spec fn panel_rows(cs: ConflictState, side: Seq<Seq<char>>, style: PanelStyle, theme: Theme) -> Seq<
    Seq<StyledModel>,
> {
    context_rows(context_before(cs), theme.fg_dim) + side_rows(side, style.fg, style.bg, theme.fg_dim)
        + context_rows(cs.sections[cs.current_section as int].suffix.deep_view(), theme.fg_dim)
}

/// The scroll that keeps the conflict a third of the panel from the top
/// when the context before it is long.
pub open spec fn conflict_scroll(before: nat, panel_height: nat) -> nat {
    if before > panel_height / 3 {
        (before - panel_height / 3) as nat
    } else {
        0
    }
}

/// Append context rows.
fn push_context_rows(rows: &mut Vec<Vec<Styled>>, ls: &Vec<String>, dim: Color)
    ensures
        lines_model(final(rows)@) == lines_model(old(rows)@) + context_rows(ls.deep_view(), dim),
{
    let ghost start = lines_model(rows@);
    let mut i: usize = 0;
    while i < ls.len()
        invariant
            i <= ls.len(),
            lines_model(rows@) == start + context_rows(ls.deep_view().take(i as int), dim),
        decreases ls.len() - i,
    {
        let mut t = String::new();
        t.push_str("  ");
        t.push_str(ls[i].as_str());
        let mut l: Vec<Styled> = Vec::new();
        push_run(&mut l, span(t, Some(dim), None, false));
        assert(line_model(l@) =~= seq![in_fg("  "@ + ls.deep_view()[i as int], dim)]);
        push_line(rows, l);
        assert(context_rows(ls.deep_view().take(i + 1), dim) =~= context_rows(
            ls.deep_view().take(i as int),
            dim,
        ).push(seq![in_fg("  "@ + ls.deep_view()[i as int], dim)]));
        i = i + 1;
    }
    assert(ls.deep_view().take(ls.len() as int) =~= ls.deep_view());
}

/// Append one side's conflict lines.
fn push_side_rows(rows: &mut Vec<Vec<Styled>>, ls: &Vec<String>, fg: Color, bg: Color, dim: Color)
    ensures
        lines_model(final(rows)@) == lines_model(old(rows)@) + side_rows(ls.deep_view(), fg, bg, dim),
{
    let ghost start = lines_model(rows@);
    let mut i: usize = 0;
    while i < ls.len()
        invariant
            i <= ls.len(),
            lines_model(rows@) == start + side_rows(ls.deep_view().take(i as int), fg, bg, dim),
        decreases ls.len() - i,
    {
        let mut l: Vec<Styled> = Vec::new();
        push_run(&mut l, span_lit("~ ", Some(dim), None, false));
        push_run(&mut l, span(ls[i].clone(), Some(fg), Some(bg), false));
        assert(line_model(l@) =~= seq![in_fg("~ "@, dim), (ls.deep_view()[i as int], Some(fg), Some(bg), false, false)]);
        push_line(rows, l);
        assert(side_rows(ls.deep_view().take(i + 1), fg, bg, dim) =~= side_rows(
            ls.deep_view().take(i as int),
            fg,
            bg,
            dim,
        ).push(seq![in_fg("~ "@, dim), (ls.deep_view()[i as int], Some(fg), Some(bg), false, false)]));
        i = i + 1;
    }
    assert(ls.deep_view().take(ls.len() as int) =~= ls.deep_view());
}

fn panel_style_exec(
    picked: bool,
    focused: bool,
    accent: Color,
    picked_bg: Color,
    title_accent: Color,
    theme: &Theme,
) -> (p: PanelStyle)
    ensures
        p == panel_style(picked, focused, accent, picked_bg, title_accent, *theme),
{
    let title_fg = if focused || picked {
        title_accent
    } else {
        theme.fg_dim
    };
    if picked {
        PanelStyle { fg: accent, border: accent, bg: picked_bg, title_fg }
    } else if focused {
        PanelStyle {
            fg: theme.conflict_dim_fg,
            border: theme.conflict_dim_border,
            bg: theme.conflict_dim_bg,
            title_fg,
        }
    } else {
        PanelStyle { fg: theme.fg_dim, border: theme.fg_dim, bg: theme.bg, title_fg }
    }
}

fn status_line(cs: &ConflictState, theme: &Theme) -> (l: Vec<Styled>)
    requires
        cs.wf(),
    ensures
        line_model(l@) == status_runs(*cs, *theme),
{
    let mut l: Vec<Styled> = Vec::new();
    let mut file = String::new();
    file.push_str(" ");
    file.push_str(cs.file_path.as_str());
    file.push_str(" ");
    push_run(&mut l, span(file, Some(theme.fg), Some(theme.fg_dim), false));
    let mut counter = String::new();
    counter.push_str(" ");
    counter.push_str(decimal(cs.current_section as u64 + 1).as_str());
    counter.push_str("/");
    counter.push_str(decimal(cs.sections.len() as u64).as_str());
    counter.push_str(" ");
    push_run(&mut l, span(counter, Some(theme.yellow), None, false));
    let (label, color): (&str, Color) = match cs.sections[cs.current_section].resolution {
        ConflictResolution::Unresolved => ("UNRESOLVED", theme.red),
        ConflictResolution::Ours => (cs.left_name.as_str(), theme.cyan),
        ConflictResolution::Theirs => (cs.right_name.as_str(), theme.magenta),
        ConflictResolution::Both => ("BOTH", theme.green),
    };
    let mut b = String::new();
    b.push_str(" ");
    b.push_str(label);
    b.push_str(" ");
    push_run(&mut l, span(b, Some(theme.black), Some(color), true));
    push_run(&mut l, span_lit("  ", None, None, false));
    let mut hint = hint_line(InputContext::ConflictNav, theme);
    let ghost head = line_model(l@);
    let ghost tail = line_model(hint@);
    l.append(&mut hint);
    assert(line_model(l@) =~= head + tail);
    l
}

/// Wrap a name in spaces for a panel title.
fn title_of(name: &String) -> (t: String)
    ensures
        t@ == " "@ + name@ + " "@,
{
    let mut t = String::new();
    t.push_str(" ");
    t.push_str(name.as_str());
    t.push_str(" ");
    t
}

/// The resolver's screen for the current section, for panels of
/// `panel_height` rows.
pub fn conflict_view(cs: &ConflictState, focused: bool, panel_height: usize, theme: &Theme) -> (v: ConflictView)
    requires
        cs.wf(),
    ensures
        line_model(v.status@) == status_runs(*cs, *theme),
        v.left_title@ == " "@ + cs.left_name@ + " "@,
        v.right_title@ == " "@ + cs.right_name@ + " "@,
        v.left_style == left_style_of(*cs, focused, *theme),
        v.right_style == right_style_of(*cs, focused, *theme),
        lines_model(v.left_rows@) == panel_rows(
            *cs,
            cs.sections[cs.current_section as int].ours.deep_view(),
            v.left_style,
            *theme,
        ),
        lines_model(v.right_rows@) == panel_rows(
            *cs,
            cs.sections[cs.current_section as int].theirs.deep_view(),
            v.right_style,
            *theme,
        ),
        v.scroll == conflict_scroll(context_before(*cs).len(), panel_height as nat),
{
    let section = &cs.sections[cs.current_section];
    let r = section.resolution;
    let lp = r == ConflictResolution::Ours || r == ConflictResolution::Both;
    let rp = r == ConflictResolution::Theirs || r == ConflictResolution::Both;
    let left_style = panel_style_exec(lp, focused, theme.cyan, theme.conflict_ours_bg, theme.cyan, theme);
    let right_style = panel_style_exec(
        rp,
        focused,
        theme.conflict_theirs_accent,
        theme.conflict_theirs_bg,
        theme.magenta,
        theme,
    );
    let before: &Vec<String> = if cs.current_section == 0 {
        &cs.prefix
    } else {
        &cs.sections[cs.current_section - 1].suffix
    };
    let mut left_rows: Vec<Vec<Styled>> = Vec::new();
    push_context_rows(&mut left_rows, before, theme.fg_dim);
    push_side_rows(&mut left_rows, &section.ours, left_style.fg, left_style.bg, theme.fg_dim);
    push_context_rows(&mut left_rows, &section.suffix, theme.fg_dim);
    let mut right_rows: Vec<Vec<Styled>> = Vec::new();
    push_context_rows(&mut right_rows, before, theme.fg_dim);
    push_side_rows(&mut right_rows, &section.theirs, right_style.fg, right_style.bg, theme.fg_dim);
    push_context_rows(&mut right_rows, &section.suffix, theme.fg_dim);
    let third = panel_height / 3;
    let scroll = if before.len() > third {
        before.len() - third
    } else {
        0
    };
    ConflictView {
        status: status_line(cs, theme),
        left_title: title_of(&cs.left_name),
        right_title: title_of(&cs.right_name),
        left_style,
        right_style,
        left_rows,
        right_rows,
        scroll,
    }
}

} // verus!
