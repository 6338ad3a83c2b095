//! What the screen shows, decided apart from drawing it: which rows of a
//! diff are highlighted and in which colours, the line-mode markers, cut
//! and padded text, and file sizes.
use vstd::prelude::*;
use vstd::arithmetic::power2::{lemma_pow2_unfold, pow2};
use vstd::string::StrSliceExecFns;

use crate::app::{DiffState, DiffViewMode};
use crate::diff::DiffLineKind;
use crate::text::{dec_digits, digit_char, push_decimal_wide};
use crate::theme::{Color, Theme};

verus! {

broadcast use vstd::std_specs::btree::group_btree_axioms, vstd::laws_cmp::group_laws_cmp;

/// How a diff row is highlighted.
#[derive(Debug, Clone, Copy, PartialEq, Eq, Structural)]
pub enum LineHighlight {
    Plain,
    CurrentHunk,
    CursorLine,
    SelectedStage,
    SelectedUnstage,
}

/// Foreground and background of a piece of text.
#[derive(Debug, Clone, Copy, PartialEq, Eq, Structural)]
pub struct CellStyle {
    pub fg: Color,
    pub bg: Color,
}

/// The two-character marker in front of a row in line mode.
#[derive(Debug, Clone, Copy)]
pub struct Marker {
    pub text: &'static str,
    /// `None`: the default style.
    pub color: Option<Color>,
    pub bold: bool,
}

/// How row `row` of a diff is highlighted: nothing unless the diff has the
/// focus; in line mode the selection and the cursor; by hunks the changed
/// rows of the current hunk.
pub open spec fn highlight_spec(ds: DiffState, row: usize, focused: bool) -> LineHighlight {
    if !focused {
        LineHighlight::Plain
    } else if ds.view_mode == DiffViewMode::LineNav {
        if ds.selected_lines@.contains(row) {
            if ds.is_staged {
                LineHighlight::SelectedUnstage
            } else {
                LineHighlight::SelectedStage
            }
        } else if row == ds.cursor_line {
            LineHighlight::CursorLine
        } else {
            LineHighlight::Plain
        }
    } else if ds.current_hunk < ds.hunks.len() {
        let h = ds.hunks@[ds.current_hunk as int];
        if h.display_start <= row < h.display_end && ds.left_lines@[row as int].hunk_index is Some {
            LineHighlight::CurrentHunk
        } else {
            LineHighlight::Plain
        }
    } else {
        LineHighlight::Plain
    }
}

/// How row `row` of the diff is highlighted.
pub fn get_line_highlight(ds: &DiffState, display_row: usize, is_focused: bool) -> (h: LineHighlight)
    requires
        ds.wf(),
    ensures
        h == highlight_spec(*ds, display_row, is_focused),
{
    if !is_focused {
        return LineHighlight::Plain;
    }
    match ds.view_mode {
        DiffViewMode::LineNav => {
            if ds.selected_lines.contains(&display_row) {
                if ds.is_staged {
                    LineHighlight::SelectedUnstage
                } else {
                    LineHighlight::SelectedStage
                }
            } else if display_row == ds.cursor_line {
                LineHighlight::CursorLine
            } else {
                LineHighlight::Plain
            }
        },
        DiffViewMode::HunkNav => {
            if ds.current_hunk < ds.hunks.len() {
                let h = ds.hunks[ds.current_hunk];
                assert(ds.hunks@[ds.current_hunk as int] == h);
                if display_row >= h.display_start && display_row < h.display_end
                    && ds.left_lines[display_row].hunk_index.is_some() {
                    LineHighlight::CurrentHunk
                } else {
                    LineHighlight::Plain
                }
            } else {
                LineHighlight::Plain
            }
        },
    }
}

/// The background of a highlighted row, and whether changed text gets the
/// brighter background.
pub open spec fn highlight_bg(h: LineHighlight, theme: Theme) -> (Color, bool) {
    match h {
        LineHighlight::CursorLine => (theme.diff_cursor_bg, true),
        LineHighlight::SelectedStage => (theme.diff_selected_stage_bg, true),
        LineHighlight::SelectedUnstage => (theme.diff_selected_unstage_bg, true),
        LineHighlight::CurrentHunk => (theme.diff_hunk_bg, true),
        LineHighlight::Plain => (theme.bg, false),
    }
}

/// The styles of a row's number and of its text.
pub open spec fn styles_spec(kind: DiffLineKind, h: LineHighlight, theme: Theme) -> (CellStyle, CellStyle) {
    let (bg, boost) = highlight_bg(h, theme);
    let num = CellStyle { fg: theme.fg_dim, bg };
    match kind {
        DiffLineKind::Equal => (num, CellStyle { fg: theme.fg, bg }),
        DiffLineKind::Removed => (num, CellStyle {
            fg: theme.red,
            bg: if boost {
                theme.diff_removed_bg_bright
            } else {
                theme.diff_removed_bg
            },
        }),
        DiffLineKind::Added => if h == LineHighlight::SelectedUnstage {
            (num, CellStyle {
                fg: theme.red,
                bg: if boost {
                    theme.diff_removed_bg_bright
                } else {
                    theme.diff_removed_bg
                },
            })
        } else {
            (num, CellStyle {
                fg: theme.green,
                bg: if boost {
                    theme.diff_added_bg_bright
                } else {
                    theme.diff_added_bg
                },
            })
        },
        DiffLineKind::Spacer => (num, CellStyle { fg: theme.fg_dim, bg }),
    }
}

/// The styles of a row's number and text, by its kind and highlight.
pub fn line_styles(kind: DiffLineKind, highlight: LineHighlight, theme: &Theme) -> (r: (CellStyle, CellStyle))
    ensures
        r == styles_spec(kind, highlight, *theme),
{
    let (bg, boost) = match highlight {
        LineHighlight::CursorLine => (theme.diff_cursor_bg, true),
        LineHighlight::SelectedStage => (theme.diff_selected_stage_bg, true),
        LineHighlight::SelectedUnstage => (theme.diff_selected_unstage_bg, true),
        LineHighlight::CurrentHunk => (theme.diff_hunk_bg, true),
        LineHighlight::Plain => (theme.bg, false),
    };
    let num = CellStyle { fg: theme.fg_dim, bg };
    match kind {
        DiffLineKind::Equal => (num, CellStyle { fg: theme.fg, bg }),
        DiffLineKind::Removed => (num, CellStyle {
            fg: theme.red,
            bg: if boost {
                theme.diff_removed_bg_bright
            } else {
                theme.diff_removed_bg
            },
        }),
        DiffLineKind::Added => {
            if highlight == LineHighlight::SelectedUnstage {
                (num, CellStyle {
                    fg: theme.red,
                    bg: if boost {
                        theme.diff_removed_bg_bright
                    } else {
                        theme.diff_removed_bg
                    },
                })
            } else {
                (num, CellStyle {
                    fg: theme.green,
                    bg: if boost {
                        theme.diff_added_bg_bright
                    } else {
                        theme.diff_added_bg
                    },
                })
            }
        },
        DiffLineKind::Spacer => (num, CellStyle { fg: theme.fg_dim, bg }),
    }
}

/// The line-mode marker of a row: `>>` on a selected cursor row, `> ` on
/// the cursor, ` +` (` -` for a staged file) on a selected row.
pub open spec fn marker_spec(ds: DiffState, row: usize, theme: Theme) -> (Seq<char>, Option<Color>, bool) {
    let selected = ds.selected_lines@.contains(row);
    let cursor = row == ds.cursor_line;
    if cursor && selected {
        (">>"@, Some(theme.orange), true)
    } else if cursor {
        ("> "@, Some(theme.orange), true)
    } else if selected {
        (if ds.is_staged {
            " -"@
        } else {
            " +"@
        }, Some(if ds.is_staged {
            theme.red
        } else {
            theme.green
        }), true)
    } else {
        ("  "@, None, false)
    }
}

/// The line-mode marker of a row.
pub fn line_mode_marker(ds: &DiffState, row: usize, theme: &Theme) -> (m: Marker)
    ensures
        (m.text@, m.color, m.bold) == marker_spec(*ds, row, *theme),
{
    let is_selected = ds.selected_lines.contains(&row);
    let is_cursor = row == ds.cursor_line;
    if is_cursor && is_selected {
        Marker { text: ">>", color: Some(theme.orange), bold: true }
    } else if is_cursor {
        Marker { text: "> ", color: Some(theme.orange), bold: true }
    } else if is_selected {
        if ds.is_staged {
            Marker { text: " -", color: Some(theme.red), bold: true }
        } else {
            Marker { text: " +", color: Some(theme.green), bold: true }
        }
    } else {
        Marker { text: "  ", color: None, bold: false }
    }
}

/// `s` without its first `n` characters.
pub fn skip_chars(s: &str, n: usize) -> (r: &str)
    ensures
        r@ == s@.skip(if n <= s@.len() { n as int } else { s@.len() as int }),
{
    if n == 0 {
        assert(s@.skip(0) =~= s@);
        return s;
    }
    let len = s.unicode_len();
    let k = if n <= len {
        n
    } else {
        len
    };
    let r = s.substring_char(k, len);
    assert(r@ =~= s@.skip(k as int));
    r
}

/// `s` cut or padded with spaces to exactly `max_len` characters.
pub open spec fn fit_width(s: Seq<char>, max_len: nat) -> Seq<char> {
    if s.len() >= max_len {
        s.take(max_len as int)
    } else {
        s + Seq::new((max_len - s.len()) as nat, |_i: int| ' ')
    }
}

/// `s` cut or padded with spaces to exactly `max_len` characters.
pub fn truncate_str(s: &str, max_len: usize) -> (r: String)
    ensures
        r@ == fit_width(s@, max_len as nat),
{
    let len = s.unicode_len();
    if len >= max_len {
        let t = s.substring_char(0, max_len);
        assert(t@ =~= s@.take(max_len as int));
        return t.to_owned();
    }
    let mut r = s.to_owned();
    let mut k: usize = len;
    while k < max_len
        invariant
            len <= k <= max_len,
            len == s@.len(),
            r@ == s@ + Seq::new((k - len) as nat, |_i: int| ' '),
        decreases max_len - k,
    {
        r.push(' ');
        assert(s@ + Seq::new((k + 1 - len) as nat, |_i: int| ' ') =~= (s@ + Seq::new(
            (k - len) as nat,
            |_i: int| ' ',
        )).push(' '));
        k = k + 1;
    }
    r
}

/// The largest value `2^53` below which every integer is an `f64`.
pub open spec fn f64_exact_limit() -> nat {
    0x20000000000000
}

/// How many low bits of `b` an `f64` drops: `b` keeps 53 significant bits.
pub open spec fn dropped_bits(b: nat) -> nat
    decreases b,
{
    if b < f64_exact_limit() {
        0
    } else {
        1 + dropped_bits(b / 2)
    }
}

/// `b` as an `f64` holds it: rounded to 53 significant bits, ties to even.
pub open spec fn as_f64(b: nat) -> nat {
    let p = pow2(dropped_bits(b));
    let hi = b / p;
    let lo = b % p;
    if 2 * lo > p || (2 * lo == p && hi % 2 == 1) {
        (hi + 1) * p
    } else {
        hi * p
    }
}

/// `v / d` in tenths, rounded to nearest, ties to even.
pub open spec fn tenths(v: nat, d: nat) -> nat {
    let q = (10 * v) / d;
    let r = (10 * v) % d;
    if 2 * r > d || (2 * r == d && q % 2 == 1) {
        q + 1
    } else {
        q
    }
}

/// A size with one decimal, in GB, MB or KB (of 1024).
pub open spec fn size_text(bytes: nat) -> Seq<char> {
    let (d, unit) = if bytes >= 1_073_741_824 {
        (1_073_741_824nat, " GB"@)
    } else if bytes >= 1_048_576 {
        (1_048_576nat, " MB"@)
    } else {
        (1024nat, " KB"@)
    };
    let t = tenths(as_f64(bytes), d);
    dec_digits(t / 10) + seq!['.', digit_char((t % 10) as int)] + unit
}

fn f64_of(b: u64) -> (v: u128)
    ensures
        v == as_f64(b as nat),
        v <= 0x20000000000000000,
{
    let m = b as u128;
    let mut p: u128 = 1;
    let ghost mut s: nat = 0;
    proof {
        vstd::arithmetic::power2::lemma_pow2(0);
        assert(pow2(0) == 1) by {
            reveal(vstd::arithmetic::power::pow);
        }
    }
    while m / p >= 0x20000000000000
        invariant
            m == b as u128,
            m < 0x10000000000000000,
            1 <= p <= 4096,
            p == pow2(s),
            dropped_bits(m as nat) == s + dropped_bits((m / p) as nat),
        decreases m / p,
    {
        proof {
            vstd::arithmetic::div_mod::lemma_div_denominator(m as int, p as int, 2);
            vstd::arithmetic::div_mod::lemma_fundamental_div_mod(m as int, p as int);
            lemma_pow2_unfold(s + 1);
            assert(p * (m / p) <= m) by (nonlinear_arith)
                requires
                    m as int == p * (m / p) + m % p,
                    m % p >= 0,
            ;
            assert(p < 2048) by (nonlinear_arith)
                requires
                    p * (m / p) <= m,
                    m / p >= 0x20000000000000,
                    m < 0x10000000000000000,
                    p >= 1,
            ;
        }
        p = p * 2;
        proof {
            s = s + 1;
        }
    }
    let hi = m / p;
    let lo = m % p;
    proof {
        vstd::arithmetic::div_mod::lemma_fundamental_div_mod(m as int, p as int);
        assert(hi * p <= m) by (nonlinear_arith)
            requires
                m as int == p * hi + lo,
                lo >= 0,
        ;
        assert(hi < 0x20000000000000);
        assert((hi + 1) * p <= 0x20000000000000 * 4096) by (nonlinear_arith)
            requires
                hi < 0x20000000000000,
                p <= 4096,
        ;
    }
    if 2 * lo > p || (2 * lo == p && hi % 2 == 1) {
        (hi + 1) * p
    } else {
        hi * p
    }
}

/// A file size with one decimal, in GB, MB or KB.
pub fn format_file_size(bytes: u64) -> (s: String)
    ensures
        s@ == size_text(bytes as nat),
{
    let (d, unit): (u128, &str) = if bytes >= 1_073_741_824 {
        (1_073_741_824, " GB")
    } else if bytes >= 1_048_576 {
        (1_048_576, " MB")
    } else {
        (1024, " KB")
    };
    let v = f64_of(bytes);
    let x = 10 * v;
    let q = x / d;
    let r = x % d;
    let t = if 2 * r > d || (2 * r == d && q % 2 == 1) {
        q + 1
    } else {
        q
    };
    let mut s = String::new();
    push_decimal_wide(&mut s, t / 10);
    s.push('.');
    let last = (t % 10) as u8;
    s.push((48u8 + last) as char);
    s.push_str(unit);
    assert(s@ =~= size_text(bytes as nat));
    s
}

/// The colour a highlighted token gets: its own, unless it is too close to
/// the theme's background (squared distance under 400), then the theme's
/// foreground (white when the theme has none).
pub open spec fn foreground_spec(c: (u8, u8, u8), bg: Option<(u8, u8, u8)>, fg: Option<(u8, u8, u8)>) -> Color {
    match bg {
        Some(b) => {
            let d = (c.0 - b.0) * (c.0 - b.0) + (c.1 - b.1) * (c.1 - b.1) + (c.2 - b.2) * (c.2 - b.2);
            if d < 400 {
                match fg {
                    Some(f) => Color::Rgb(f.0, f.1, f.2),
                    None => Color::White,
                }
            } else {
                Color::Rgb(c.0, c.1, c.2)
            }
        },
        None => Color::Rgb(c.0, c.1, c.2),
    }
}

/// The colour a highlighted token gets, kept readable on the background.
pub fn pick_foreground(c: (u8, u8, u8), theme_bg: Option<(u8, u8, u8)>, theme_fg: Option<(u8, u8, u8)>) -> (r: Color)
    ensures
        r == foreground_spec(c, theme_bg, theme_fg),
{
    if let Some(b) = theme_bg {
        let dr = c.0 as i32 - b.0 as i32;
        let dg = c.1 as i32 - b.1 as i32;
        let db = c.2 as i32 - b.2 as i32;
        assert(0 <= dr * dr <= 65025 && 0 <= dg * dg <= 65025 && 0 <= db * db <= 65025) by (nonlinear_arith)
            requires
                -255 <= dr <= 255,
                -255 <= dg <= 255,
                -255 <= db <= 255,
        ;
        let dist_sq = dr * dr + dg * dg + db * db;
        if dist_sq < 400 {
            return match theme_fg {
                Some(f) => Color::Rgb(f.0, f.1, f.2),
                None => Color::White,
            };
        }
    }
    Color::Rgb(c.0, c.1, c.2)
}

} // verus!
