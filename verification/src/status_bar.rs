//! The header and footer lines of the screen.
use vstd::prelude::*;

use crate::app::{App, Panel};
use crate::styled::{empty_line, in_fg, line_model, push_run, span, span_lit, Styled, StyledModel};
use crate::text::{dec_digits, push_decimal};
use crate::theme::Color;

verus! {

/// The header: branch, number of changes, and the main keys.
pub open spec fn header_runs(app: App) -> Seq<StyledModel> {
    seq![
        ("  "@ + app.branch_name@ + " "@, Some(Color::Black), Some(Color::Cyan), true, false),
        (" "@ + dec_digits(app.file_entries.len() as nat) + " changes "@, Some(Color::White), Some(Color::DarkGray), false, false),
        in_fg("  [s]tage [u]nstage [d]iscard [r]efresh [q]uit "@, Color::DarkGray),
    ]
}

/// The name of a panel as the footer shows it.
pub open spec fn panel_name(p: Panel) -> Seq<char> {
    match p {
        Panel::FileList => "FileList"@,
        Panel::DiffView => "DiffView"@,
    }
}

/// The footer: the focused panel, the diffed file, the status message and
/// the navigation keys.
pub open spec fn footer_runs(app: App) -> Seq<StyledModel> {
    seq![(" "@ + panel_name(app.active_panel) + " "@, Some(Color::Black), Some(Color::Blue), false, false)] + (
    match app.diff_state {
        Some(ds) => seq![in_fg(" "@ + ds.file_path@ + " "@, Color::White)],
        None => Seq::empty(),
    }) + (match app.status_message {
        Some(m) => seq![in_fg(" | "@ + m@, Color::Yellow)],
        None => Seq::empty(),
    }) + seq![in_fg(" | j/k:navigate Enter:select Tab:switch "@, Color::DarkGray)]
}

/// The header line.
pub fn header_line(app: &App) -> (l: Vec<Styled>)
    ensures
        line_model(l@) == header_runs(*app),
{
    let mut l = empty_line();
    let mut b = String::new();
    b.push_str("  ");
    b.push_str(app.branch_name.as_str());
    b.push_str(" ");
    push_run(&mut l, span(b, Some(Color::Black), Some(Color::Cyan), true));
    let mut c = String::new();
    c.push_str(" ");
    push_decimal(&mut c, app.file_entries.len() as u64);
    c.push_str(" changes ");
    push_run(&mut l, span(c, Some(Color::White), Some(Color::DarkGray), false));
    push_run(&mut l, span_lit("  [s]tage [u]nstage [d]iscard [r]efresh [q]uit ", Some(Color::DarkGray), None, false));
    assert(line_model(l@) =~= header_runs(*app));
    l
}

/// The footer line.
pub fn footer_line(app: &App) -> (l: Vec<Styled>)
    ensures
        line_model(l@) == footer_runs(*app),
{
    let mut l = empty_line();
    let mut p = String::new();
    p.push_str(" ");
    p.push_str(match app.active_panel {
        Panel::FileList => "FileList",
        Panel::DiffView => "DiffView",
    });
    p.push_str(" ");
    push_run(&mut l, span(p, Some(Color::Black), Some(Color::Blue), false));
    let ghost first = line_model(l@);
    if let Some(ds) = &app.diff_state {
        let mut f = String::new();
        f.push_str(" ");
        f.push_str(ds.file_path.as_str());
        f.push_str(" ");
        push_run(&mut l, span(f, Some(Color::White), None, false));
    }
    let ghost second = line_model(l@);
    if let Some(m) = &app.status_message {
        let mut t = String::new();
        t.push_str(" | ");
        t.push_str(m.as_str());
        push_run(&mut l, span(t, Some(Color::Yellow), None, false));
    }
    push_run(&mut l, span_lit(" | j/k:navigate Enter:select Tab:switch ", Some(Color::DarkGray), None, false));
    assert(line_model(l@) =~= footer_runs(*app));
    l
}

} // verus!
