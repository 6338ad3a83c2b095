//! What the two diff panes show: their titles, the visible rows with line
//! numbers, markers and blame, the large-file notice and the overview bar.
use vstd::prelude::*;
use vstd::string::StrSliceExecFns;

use crate::app::{DiffState, DiffViewMode};
use crate::diff::{DiffLine, DiffLineKind, Hunk};
use crate::log::BlameLine;
use crate::syntax::{runs_text, Highlighter};
use crate::styled::{
    empty_line, in_fg, line_model, lines_model, one_run, plain, push_line, push_run, push_spaces, right_aligned, span, span_lit,
    spaces, Styled, StyledModel,
};
use crate::text::{dec_digits, push_decimal, push_decimal_wide};
use crate::theme::{Color, Theme};
use crate::view::{
    fit_width, format_file_size, get_line_highlight, highlight_spec, line_mode_marker, line_styles,
    marker_spec, size_text, skip_chars, styles_spec, truncate_str, CellStyle, LineHighlight,
};

verus! {

broadcast use vstd::std_specs::btree::group_btree_axioms, vstd::laws_cmp::group_laws_cmp,
    vstd::seq_lib::group_seq_properties;

/// The position within the diff, after the file name in the right title.
pub open spec fn mode_info(ds: DiffState) -> Seq<char> {
    if ds.view_mode == DiffViewMode::HunkNav && ds.hunks.len() > 0 {
        " [hunk "@ + dec_digits((ds.current_hunk + 1) as nat) + "/"@ + dec_digits(ds.hunks.len() as nat) + "]"@
    } else if ds.view_mode == DiffViewMode::LineNav {
        " ["@ + dec_digits(ds.selected_lines@.len()) + "/"@ + dec_digits(ds.hunk_changed_rows.len() as nat)
            + " "@ + (if ds.is_staged {
            "to unstage"@
        } else {
            "selected"@
        }) + " | hunk "@ + dec_digits((ds.current_hunk + 1) as nat) + "/"@ + dec_digits(ds.hunks.len() as nat)
            + "]"@
    } else {
        Seq::empty()
    }
}

/// The right pane's title: which side of the diff, the file and the position.
pub open spec fn right_title_spec(d: Option<DiffState>) -> Seq<char> {
    match d {
        Some(ds) => " "@ + (if ds.is_staged {
            "Index"@
        } else {
            "Working Tree"@
        }) + ": "@ + ds.file_path@ + mode_info(ds) + " "@,
        None => " Working Tree "@,
    }
}

/// The right pane's title.
pub fn right_title(d: &Option<DiffState>) -> (t: String)
    ensures
        t@ == right_title_spec(*d),
{
    match d {
        None => " Working Tree ".to_owned(),
        Some(ds) => {
            let mut t = String::new();
            t.push_str(" ");
            t.push_str(if ds.is_staged {
                "Index"
            } else {
                "Working Tree"
            });
            t.push_str(": ");
            t.push_str(ds.file_path.as_str());
            if ds.view_mode == DiffViewMode::HunkNav && ds.hunks.len() > 0 {
                t.push_str(" [hunk ");
                push_decimal_wide(&mut t, ds.current_hunk as u128 + 1);
                t.push_str("/");
                push_decimal(&mut t, ds.hunks.len() as u64);
                t.push_str("]");
            } else if ds.view_mode == DiffViewMode::LineNav {
                t.push_str(" [");
                push_decimal(&mut t, ds.selected_lines.len() as u64);
                t.push_str("/");
                push_decimal(&mut t, ds.hunk_changed_rows.len() as u64);
                t.push_str(" ");
                t.push_str(if ds.is_staged {
                    "to unstage"
                } else {
                    "selected"
                });
                t.push_str(" | hunk ");
                push_decimal_wide(&mut t, ds.current_hunk as u128 + 1);
                t.push_str("/");
                push_decimal(&mut t, ds.hunks.len() as u64);
                t.push_str("]");
            }
            t.push_str(" ");
            assert(t@ =~= right_title_spec(*d));
            t
        },
    }
}

/// The left pane's text while no diff is loaded: nothing while a large file
/// waits to be loaded, else an invitation to pick a file.
pub fn left_placeholder(large_file_waiting: bool) -> (t: &'static str)
    ensures
        t@ == (if large_file_waiting {
            ""@
        } else {
            "Select a file to view diff"@
        }),
{
    if large_file_waiting {
        ""
    } else {
        "Select a file to view diff"
    }
}

/// The notice shown in place of a diff of a large file.
pub open spec fn large_file_spec(path: Seq<char>, size: u64, theme: Theme) -> Seq<Seq<StyledModel>> {
    seq![
        Seq::empty(),
        seq![in_fg("  "@ + path, theme.fg)],
        Seq::empty(),
        seq![in_fg("  File is too large to auto-diff ("@ + size_text(size as nat) + ")"@, theme.yellow)],
        Seq::empty(),
        seq![in_fg("  Press Enter to load anyway"@, theme.fg_dim)],
    ]
}

/// The notice shown in place of a diff of a large file.
pub fn large_file_lines(path: &String, size: u64, theme: &Theme) -> (ls: Vec<Vec<Styled>>)
    ensures
        lines_model(ls@) == large_file_spec(path@, size, *theme),
{
    let mut ls: Vec<Vec<Styled>> = Vec::new();
    push_line(&mut ls, empty_line());
    let mut p = String::new();
    p.push_str("  ");
    p.push_str(path.as_str());
    push_line(&mut ls, one_run(span(p, Some(theme.fg), None, false)));
    push_line(&mut ls, empty_line());
    let mut m = String::new();
    m.push_str("  File is too large to auto-diff (");
    m.push_str(format_file_size(size).as_str());
    m.push_str(")");
    push_line(&mut ls, one_run(span(m, Some(theme.yellow), None, false)));
    push_line(&mut ls, empty_line());
    push_line(&mut ls, one_run(span_lit("  Press Enter to load anyway", Some(theme.fg_dim), None, false)));
    assert(lines_model(ls@) =~= large_file_spec(path@, size, *theme));
    ls
}

/// Whether a row of the left side holds a line of the old file.
pub open spec fn is_old_row(k: DiffLineKind) -> bool {
    k == DiffLineKind::Equal || k == DiffLineKind::Removed
}

/// How many of the first `i` rows hold a line of the old file.
pub open spec fn old_rows_before(lines: Seq<DiffLine>, i: int) -> nat
    decreases i,
{
    if i <= 0 {
        0
    } else {
        old_rows_before(lines, i - 1) + if is_old_row(lines[i - 1].kind) {
            1nat
        } else {
            0nat
        }
    }
}

/// The old-file line shown on row `i`, if it shows one.
pub open spec fn blame_index(lines: Seq<DiffLine>, i: int) -> Option<nat> {
    if is_old_row(lines[i].kind) {
        Some(old_rows_before(lines, i))
    } else {
        None
    }
}

/// The blame run of row `i`: commit and author of its old-file line, or
/// blank when there is none.
pub open spec fn blame_run(blame: Seq<BlameLine>, lines: Seq<DiffLine>, i: int, theme: Theme) -> StyledModel {
    match blame_index(lines, i) {
        Some(fi) => if fi < blame.len() {
            in_fg(blame[fi as int].hash@ + " "@ + fit_width(blame[fi as int].author@, 8) + " "@, theme.fg_dim)
        } else {
            plain(spaces(18))
        },
        None => plain(spaces(18)),
    }
}

/// Row `i`'s number, right-aligned in four columns.
pub open spec fn number_text(i: int) -> Seq<char> {
    right_aligned(dec_digits((i + 1) as nat), 4) + " "@
}

/// One visible row: the runs before the text (blame, marker, number), the
/// text after the horizontal scroll, the text's style and the row's kind.
pub struct DiffRow {
    pub prefix: Vec<Styled>,
    pub text: String,
    pub style: CellStyle,
    pub kind: DiffLineKind,
}

pub type DiffRowModel = (Seq<StyledModel>, Seq<char>, CellStyle, DiffLineKind);

impl DiffRow {
    pub open spec fn model(&self) -> DiffRowModel {
        (line_model(self.prefix@), self.text@, self.style, self.kind)
    }
}

/// The lines of one side of the diff.
pub open spec fn side_lines(ds: DiffState, left: bool) -> Seq<DiffLine> {
    if left {
        ds.left_lines@
    } else {
        ds.right_lines@
    }
}

/// Row `i` of one side.
pub open spec fn row_spec(
    ds: DiffState,
    left: bool,
    blame: Option<Seq<BlameLine>>,
    focused: bool,
    i: int,
    theme: Theme,
) -> DiffRowModel {
    let dl = side_lines(ds, left)[i];
    let styles = styles_spec(dl.kind, highlight_spec(ds, i as usize, focused), theme);
    let m = marker_spec(ds, i as usize, theme);
    let prefix = (match blame {
        Some(b) => seq![blame_run(b, ds.left_lines@, i, theme)],
        None => Seq::empty(),
    }) + (if ds.view_mode == DiffViewMode::LineNav && dl.hunk_index is Some {
        seq![(m.0, m.1, None, m.2, false)]
    } else {
        Seq::empty()
    }) + seq![(number_text(i), Some(styles.0.fg), Some(styles.0.bg), false, false)];
    let len = dl.content@.len();
    (prefix, dl.content@.skip(if ds.h_scroll <= len { ds.h_scroll as int } else { len as int }), styles.1, dl.kind)
}

/// The first visible row and how many rows are visible.
pub open spec fn visible_count(len: int, scroll: int, height: int) -> int {
    if scroll >= len {
        0
    } else if len - scroll < height {
        len - scroll
    } else {
        height
    }
}

/// Row `i`'s number, right-aligned in four columns.
fn number_of(i: usize) -> (s: String)
    ensures
        s@ == number_text(i as int),
{
    let mut d = String::new();
    push_decimal_wide(&mut d, i as u128 + 1);
    let n = d.unicode_len();
    let mut s = String::new();
    if n < 4 {
        push_spaces(&mut s, 4 - n);
    }
    s.push_str(d.as_str());
    s.push_str(" ");
    assert(s@ =~= number_text(i as int));
    s
}

/// The old-file line of every row of the left side.
fn blame_map(lines: &Vec<DiffLine>) -> (m: Vec<Option<usize>>)
    ensures
        m.len() == lines.len(),
        forall|i: int|
            0 <= i < lines.len() ==> match #[trigger] m@[i] {
                Some(k) => blame_index(lines@, i) == Some(k as nat),
                None => blame_index(lines@, i) is None,
            },
{
    let mut m: Vec<Option<usize>> = Vec::new();
    let mut count: usize = 0;
    let mut i: usize = 0;
    while i < lines.len()
        invariant
            i <= lines.len(),
            m.len() == i,
            count == old_rows_before(lines@, i as int),
            count <= i,
            forall|j: int|
                0 <= j < i ==> match #[trigger] m@[j] {
                    Some(k) => blame_index(lines@, j) == Some(k as nat),
                    None => blame_index(lines@, j) is None,
                },
        decreases lines.len() - i,
    {
        let k = lines[i].kind;
        if k == DiffLineKind::Equal || k == DiffLineKind::Removed {
            m.push(Some(count));
            count = count + 1;
        } else {
            m.push(None);
        }
        i = i + 1;
    }
    m
}

/// The blame run of a row.
fn blame_run_of(blame: &Vec<BlameLine>, entry: Option<usize>, theme: &Theme) -> (s: Styled)
    ensures
        s.model() == match entry {
            Some(fi) => if fi < blame.len() {
                in_fg(blame@[fi as int].hash@ + " "@ + fit_width(blame@[fi as int].author@, 8) + " "@, theme.fg_dim)
            } else {
                plain(spaces(18))
            },
            None => plain(spaces(18)),
        },
{
    match entry {
        Some(fi) => {
            if fi < blame.len() {
                let bl = &blame[fi];
                let mut t = String::new();
                t.push_str(bl.hash.as_str());
                t.push_str(" ");
                t.push_str(truncate_str(bl.author.as_str(), 8).as_str());
                t.push_str(" ");
                return span(t, Some(theme.fg_dim), None, false);
            }
        },
        None => {},
    }
    let mut t = String::new();
    push_spaces(&mut t, 18);
    span(t, None, None, false)
}

/// The visible rows of one side: `left` picks the left side, `blame` the
/// annotations shown on it; `visible_height` rows from the scroll position.
pub fn diff_rows(
    ds: &DiffState,
    left: bool,
    blame: Option<&Vec<BlameLine>>,
    focused: bool,
    visible_height: usize,
    theme: &Theme,
) -> (rows: Vec<DiffRow>)
    requires
        ds.wf(),
    ensures
        rows.len() == visible_count(side_lines(*ds, left).len() as int, ds.scroll as int, visible_height as int),
        forall|k: int|
            0 <= k < rows.len() ==> (#[trigger] rows@[k]).model() == row_spec(
                *ds,
                left,
                match blame {
                    Some(b) => Some(b@),
                    None => None,
                },
                focused,
                ds.scroll + k,
                *theme,
            ),
{
    let lines: &Vec<DiffLine> = if left {
        &ds.left_lines
    } else {
        &ds.right_lines
    };
    let len = lines.len();
    let count: usize = if ds.scroll >= len {
        0
    } else if len - ds.scroll < visible_height {
        len - ds.scroll
    } else {
        visible_height
    };
    let map: Vec<Option<usize>> = match blame {
        Some(_) => blame_map(&ds.left_lines),
        None => Vec::new(),
    };
    let ghost bm = match blame {
        Some(b) => Some(b@),
        None => None::<Seq<BlameLine>>,
    };
    let mut rows: Vec<DiffRow> = Vec::new();
    let mut k: usize = 0;
    while k < count
        invariant
            k <= count,
            count == visible_count(len as int, ds.scroll as int, visible_height as int),
            len == lines.len(),
            lines@ == side_lines(*ds, left),
            ds.wf(),
            blame is Some ==> map.len() == ds.left_lines.len() && forall|i: int|
                0 <= i < ds.left_lines.len() ==> match #[trigger] map@[i] {
                    Some(x) => blame_index(ds.left_lines@, i) == Some(x as nat),
                    None => blame_index(ds.left_lines@, i) is None,
                },
            bm == match blame {
                Some(b) => Some(b@),
                None => None::<Seq<BlameLine>>,
            },
            rows.len() == k,
            forall|j: int|
                0 <= j < k ==> (#[trigger] rows@[j]).model() == row_spec(*ds, left, bm, focused, ds.scroll + j, *theme),
        decreases count - k,
    {
        let i = ds.scroll + k;
        let dl = &lines[i];
        let hl = get_line_highlight(ds, i, focused);
        let (num_style, text_style) = line_styles(dl.kind, hl, theme);
        let mut prefix: Vec<Styled> = Vec::new();
        match blame {
            Some(b) => {
                let entry = if i < map.len() {
                    map[i]
                } else {
                    None
                };
                proof {
                    if i >= ds.left_lines.len() {
                        assert(ds.left_lines.len() == ds.right_lines.len());
                    }
                }
                push_run(&mut prefix, blame_run_of(b, entry, theme));
            },
            None => {},
        }
        if ds.view_mode == DiffViewMode::LineNav && dl.hunk_index.is_some() {
            let m = line_mode_marker(ds, i, theme);
            push_run(&mut prefix, span_lit(m.text, m.color, None, m.bold));
        }
        push_run(&mut prefix, span(number_of(i), Some(num_style.fg), Some(num_style.bg), false));
        let text = skip_chars(dl.content.as_str(), ds.h_scroll).to_owned();
        let row = DiffRow { prefix, text, style: text_style, kind: dl.kind };
        assert(row.model().0 =~= row_spec(*ds, left, bm, focused, i as int, *theme).0);
        rows.push(row);
        k = k + 1;
    }
    rows
}

/// One cell of the overview bar: its glyph and colours.
#[derive(Debug, Clone, Copy, PartialEq, Eq, Structural)]
pub struct BarCell {
    pub glyph: char,
    pub fg: Color,
    pub bg: Color,
}

/// The rows of the diff that bar cell `row` stands for: `start..end`.
pub open spec fn cell_span(len: int, bar_height: int, row: int) -> (int, int) {
    let total = if len > 1 { len } else { 1 };
    let start = row * total / bar_height;
    let e = (row + 1) * total / bar_height;
    (start, if e > start + 1 { e } else { start + 1 })
}

/// Whether rows `start..end` hold an added line.
pub open spec fn has_added(lines: Seq<DiffLine>, start: int, end: int) -> bool {
    exists|j: int| start <= j < end && j < lines.len() && lines[j].kind == DiffLineKind::Added
}

/// Whether rows `start..end` hold a removed line (or the gap of one).
pub open spec fn has_removed(lines: Seq<DiffLine>, start: int, end: int) -> bool {
    exists|j: int|
        start <= j < end && j < lines.len() && (lines[j].kind == DiffLineKind::Removed || lines[j].kind
            == DiffLineKind::Spacer) && lines[j].hunk_index is Some
}

/// Bar cell `row`: yellow where lines are both added and removed, green
/// where added, red where removed; the viewport drawn as a thin line on its
/// own background.
pub open spec fn bar_cell_spec(
    lines: Seq<DiffLine>,
    scroll: int,
    visible_height: int,
    bar_height: int,
    row: int,
    theme: Theme,
) -> BarCell {
    let (start, end) = cell_span(lines.len() as int, bar_height, row);
    let a = has_added(lines, start, end);
    let r = has_removed(lines, start, end);
    let in_view = start < scroll + visible_height && end > scroll;
    let bg = if in_view {
        theme.diff_viewport_bg
    } else {
        theme.bg
    };
    if a && r {
        BarCell { glyph: '\u{2503}', fg: theme.yellow, bg }
    } else if a {
        BarCell { glyph: '\u{2503}', fg: theme.green, bg }
    } else if r {
        BarCell { glyph: '\u{2503}', fg: theme.red, bg }
    } else if in_view {
        BarCell { glyph: '\u{2502}', fg: theme.fg_dim, bg }
    } else {
        BarCell { glyph: ' ', fg: theme.fg_dim, bg }
    }
}

/// The overview bar of a diff, `bar_height` cells from top to bottom.
pub fn overview_bar(
    lines: &Vec<DiffLine>,
    scroll: usize,
    visible_height: usize,
    bar_height: usize,
    theme: &Theme,
) -> (cells: Vec<BarCell>)
    requires
        scroll + visible_height <= usize::MAX,
        (bar_height + 1) * (if lines.len() > 1 { lines.len() as int } else { 1 }) <= usize::MAX,
    ensures
        cells.len() == bar_height,
        forall|row: int|
            0 <= row < bar_height ==> #[trigger] cells@[row] == bar_cell_spec(
                lines@,
                scroll as int,
                visible_height as int,
                bar_height as int,
                row,
                *theme,
            ),
{
    let mut cells: Vec<BarCell> = Vec::new();
    let len = lines.len();
    let total: usize = if len > 1 {
        len
    } else {
        1
    };
    let mut row: usize = 0;
    while row < bar_height
        invariant
            row <= bar_height,
            len == lines.len(),
            total == (if len > 1 { len } else { 1 }),
            scroll + visible_height <= usize::MAX,
            (bar_height + 1) * total <= usize::MAX,
            cells.len() == row,
            forall|j: int|
                0 <= j < row ==> #[trigger] cells@[j] == bar_cell_spec(
                    lines@,
                    scroll as int,
                    visible_height as int,
                    bar_height as int,
                    j,
                    *theme,
                ),
        decreases bar_height - row,
    {
        assert(row * total <= (bar_height + 1) * total && (row + 1) * total <= (bar_height + 1) * total)
            by (nonlinear_arith)
            requires
                row < bar_height,
        ;
        let start = row * total / bar_height;
        assert(start < total) by (nonlinear_arith)
            requires
                row < bar_height,
                total >= 1,
                start as int == (row as int) * (total as int) / (bar_height as int),
        ;
        let e = (row + 1) * total / bar_height;
        let end = if e > start + 1 {
            e
        } else {
            start + 1
        };
        let stop = if end < len {
            end
        } else {
            len
        };
        let mut added = false;
        let mut removed = false;
        let mut j = start;
        while j < stop
            invariant
                stop <= len,
                len == lines.len(),
                stop == (if end < len { end } else { len }),
                added <==> exists|x: int| start <= x < j && x < stop && lines@[x].kind == DiffLineKind::Added,
                removed <==> exists|x: int|
                    start <= x < j && x < stop && (lines@[x].kind == DiffLineKind::Removed || lines@[x].kind
                        == DiffLineKind::Spacer) && lines@[x].hunk_index is Some,
                start <= j,
            decreases stop - j,
        {
            let k = lines[j].kind;
            if k == DiffLineKind::Added {
                added = true;
            } else if (k == DiffLineKind::Removed || k == DiffLineKind::Spacer) && lines[j].hunk_index.is_some() {
                removed = true;
            }
            j = j + 1;
        }
        assert(added == has_added(lines@, start as int, end as int));
        assert(removed == has_removed(lines@, start as int, end as int));
        let in_view = start < scroll + visible_height && end > scroll;
        let bg = if in_view {
            theme.diff_viewport_bg
        } else {
            theme.bg
        };
        let cell = if added && removed {
            BarCell { glyph: '\u{2503}', fg: theme.yellow, bg }
        } else if added {
            BarCell { glyph: '\u{2503}', fg: theme.green, bg }
        } else if removed {
            BarCell { glyph: '\u{2503}', fg: theme.red, bg }
        } else if in_view {
            BarCell { glyph: '\u{2502}', fg: theme.fg_dim, bg }
        } else {
            BarCell { glyph: ' ', fg: theme.fg_dim, bg }
        };
        cells.push(cell);
        row = row + 1;
    }
    cells
}

/// How a row of a commit's diff is highlighted: the changed rows of the
/// current hunk stand out.
pub open spec fn detail_highlight(left: Seq<DiffLine>, hunks: Seq<Hunk>, current: int, row: int) -> LineHighlight {
    if 0 <= current < hunks.len() && hunks[current].display_start <= row < hunks[current].display_end
        && left[row].hunk_index is Some {
        LineHighlight::CurrentHunk
    } else {
        LineHighlight::Plain
    }
}

/// Row `row` of one side of a commit's diff: number and text.
pub open spec fn detail_row_spec(
    lines: Seq<DiffLine>,
    left: Seq<DiffLine>,
    hunks: Seq<Hunk>,
    current: int,
    row: int,
    theme: Theme,
) -> DiffRowModel {
    let st = styles_spec(lines[row].kind, detail_highlight(left, hunks, current, row), theme);
    (seq![(number_text(row), Some(st.0.fg), Some(st.0.bg), false, false)], lines[row].content@, st.1, lines[row].kind)
}

/// The visible rows of one side of a commit's diff (`lines` is that side,
/// `left` the left side, whose rows carry the hunk marks).
pub fn detail_rows(
    lines: &Vec<DiffLine>,
    left: &Vec<DiffLine>,
    hunks: &Vec<Hunk>,
    current: usize,
    scroll: usize,
    height: usize,
    theme: &Theme,
) -> (rows: Vec<DiffRow>)
    requires
        lines.len() == left.len(),
    ensures
        rows.len() == visible_count(lines.len() as int, scroll as int, height as int),
        forall|k: int|
            0 <= k < rows.len() ==> (#[trigger] rows@[k]).model() == detail_row_spec(
                lines@,
                left@,
                hunks@,
                current as int,
                scroll + k,
                *theme,
            ),
{
    let len = lines.len();
    let count: usize = if scroll >= len {
        0
    } else if len - scroll < height {
        len - scroll
    } else {
        height
    };
    let mut rows: Vec<DiffRow> = Vec::new();
    let mut k: usize = 0;
    while k < count
        invariant
            k <= count,
            count == visible_count(len as int, scroll as int, height as int),
            len == lines.len(),
            lines.len() == left.len(),
            rows.len() == k,
            forall|j: int|
                0 <= j < k ==> (#[trigger] rows@[j]).model() == detail_row_spec(
                    lines@,
                    left@,
                    hunks@,
                    current as int,
                    scroll + j,
                    *theme,
                ),
        decreases count - k,
    {
        let i = scroll + k;
        let hl = if current < hunks.len() && hunks[current].display_start <= i && i < hunks[current].display_end
            && left[i].hunk_index.is_some() {
            LineHighlight::CurrentHunk
        } else {
            LineHighlight::Plain
        };
        let (num_style, text_style) = line_styles(lines[i].kind, hl, theme);
        let mut prefix = empty_line();
        push_run(&mut prefix, span(number_of(i), Some(num_style.fg), Some(num_style.bg), false));
        let row = DiffRow { prefix, text: lines[i].content.clone(), style: text_style, kind: lines[i].kind };
        assert(row.model().0 =~= detail_row_spec(lines@, left@, hunks@, current as int, i as int, *theme).0);
        rows.push(row);
        k = k + 1;
    }
    rows
}

/// The extension, if any, as characters.
pub open spec fn ext_view(ext: Option<&str>) -> Option<Seq<char>> {
    match ext {
        Some(e) => Some(e@),
        None => None,
    }
}

/// The runs of a row's text: highlighted in the syntax of `ext` where that
/// succeeds, else one run in the row's style. Gap rows and empty text are
/// never highlighted.
pub open spec fn content_spec(
    theme: Seq<char>,
    text: Seq<char>,
    kind: DiffLineKind,
    style: CellStyle,
    ext: Option<Seq<char>>,
) -> Seq<StyledModel> {
    let plain = seq![(text, Some(style.fg), Some(style.bg), false, false)];
    if kind != DiffLineKind::Spacer && text.len() > 0 {
        match ext {
            Some(e) => match crate::syntax::highlight_spec(theme, e, text, style.bg) {
                Some(m) => m,
                None => plain,
            },
            None => plain,
        }
    } else {
        plain
    }
}

/// The runs of a row's text: in the syntax of `ext` where the highlighter
/// knows it, else in the row's style. Gap rows and empty text are never
/// highlighted. The runs make up the text, on the row's background.
pub fn content_runs(hl: &Highlighter, text: &str, kind: DiffLineKind, style: CellStyle, ext: Option<&str>) -> (r: Vec<
    Styled,
>)
    ensures
        line_model(r@) == content_spec(hl.theme()@, text@, kind, style, ext_view(ext)),
        runs_text(line_model(r@)) == text@,
        forall|k: int| 0 <= k < r.len() ==> (#[trigger] r@[k]).bg == Some(style.bg),
{
    if kind != DiffLineKind::Spacer && text.unicode_len() > 0 {
        if let Some(e) = ext {
            if let Some(runs) = hl.highlight_line(text, e, style.bg) {
                return runs;
            }
        }
    }
    let r = one_run(span(text.to_owned(), Some(style.fg), Some(style.bg), false));
    proof {
        assert(line_model(r@).drop_last() =~= Seq::<StyledModel>::empty());
        assert(r@[0].model() == line_model(r@)[0]);
        assert(runs_text(line_model(r@).drop_last()) == Seq::<char>::empty());
        assert(runs_text(line_model(r@)) =~= text@);
    }
    r
}

} // verus!
