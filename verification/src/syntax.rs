//! File extensions (which pick a syntax) and the choice of a readable
//! foreground colour for highlighted code.
use vstd::prelude::*;

use syntect::highlighting::Theme as SynTheme;

use crate::styled::{line_model, push_run, span, Styled, StyledModel};
use crate::text::chars_of;
use crate::theme::Color;
use crate::view::{foreground_spec, pick_foreground};

verus! {

/// Start of the path segment that ends at `e`: just past the last `'/'`
/// before `e`, or 0.
pub open spec fn seg_start(p: Seq<char>, e: int) -> int
    decreases e,
{
    if e <= 0 {
        0
    } else if p[e - 1] == '/' {
        e
    } else {
        seg_start(p, e - 1)
    }
}

/// The file name of `p.take(e)` as a range of `p`, as `Path::file_name`
/// finds it: trailing `/` and `.` segments are skipped, `..` has none.
pub open spec fn name_range(p: Seq<char>, e: int) -> Option<(int, int)>
    decreases e,
{
    if e <= 0 || e > p.len() {
        None
    } else if p[e - 1] == '/' {
        name_range(p, e - 1)
    } else {
        let s = seg_start(p, e);
        if e - s == 1 && p[s] == '.' {
            if s <= 0 {
                None
            } else {
                name_range(p, s)
            }
        } else if e - s == 2 && p[s] == '.' && p[s + 1] == '.' {
            None
        } else {
            Some((s, e))
        }
    }
}

/// Position of the last `'.'` in `p[s..e]`, or -1.
pub open spec fn dot_pos(p: Seq<char>, s: int, e: int) -> int
    decreases e - s,
{
    if e <= s {
        -1
    } else if p[e - 1] == '.' {
        e - 1
    } else {
        dot_pos(p, s, e - 1)
    }
}

/// The extension of path `p`, as `Path::extension` gives it: the part of the
/// file name after its last `'.'`, none when the name has no `'.'` or only a
/// leading one.
pub open spec fn extension_of(p: Seq<char>) -> Option<Seq<char>> {
    match name_range(p, p.len() as int) {
        None => None,
        Some((s, e)) => {
            let d = dot_pos(p, s, e);
            if d < 0 || d == s {
                None
            } else {
                Some(p.subrange(d + 1, e))
            }
        },
    }
}

proof fn lemma_seg_start(p: Seq<char>, e: int)
    requires
        0 <= e <= p.len(),
    ensures
        0 <= seg_start(p, e) <= e,
        seg_start(p, e) > 0 ==> p[seg_start(p, e) - 1] == '/',
        forall|k: int| seg_start(p, e) <= k < e ==> p[k] != '/',
    decreases e,
{
    if e > 0 && p[e - 1] != '/' {
        lemma_seg_start(p, e - 1);
    }
}

proof fn lemma_name_range(p: Seq<char>, e: int)
    ensures
        name_range(p, e) matches Some((s, t)) ==> 0 <= s < t <= e <= p.len(),
    decreases e,
{
    if 0 < e <= p.len() {
        lemma_seg_start(p, e);
        if p[e - 1] == '/' {
            lemma_name_range(p, e - 1);
        } else {
            let s = seg_start(p, e);
            if e - s == 1 && p[s] == '.' && s > 0 {
                lemma_name_range(p, s);
            }
        }
    }
}

proof fn lemma_dot_pos(p: Seq<char>, s: int, e: int)
    requires
        0 <= s <= e <= p.len(),
    ensures
        dot_pos(p, s, e) == -1 || (s <= dot_pos(p, s, e) < e && p[dot_pos(p, s, e)] == '.'),
    decreases e - s,
{
    if e > s && p[e - 1] != '.' {
        lemma_dot_pos(p, s, e - 1);
    }
}

fn file_name_range(v: &Vec<char>) -> (r: Option<(usize, usize)>)
    ensures
        match r {
            Some((s, e)) => name_range(v@, v.len() as int) == Some((s as int, e as int)),
            None => name_range(v@, v.len() as int) is None,
        },
{
    let mut e = v.len();
    loop
        invariant
            e <= v.len(),
            name_range(v@, v.len() as int) == name_range(v@, e as int),
        decreases e,
    {
        if e == 0 {
            return None;
        }
        if v[e - 1] == '/' {
            e = e - 1;
        } else {
            let mut s = e;
            while s > 0 && v[s - 1] != '/'
                invariant
                    s <= e <= v.len(),
                    v@[e - 1] != '/',
                    seg_start(v@, e as int) == seg_start(v@, s as int),
                    s < e ==> v@[s as int] != '/',
                decreases s,
            {
                s = s - 1;
            }
            proof {
                assert(seg_start(v@, e as int) == s);
            }
            if e - s == 1 && v[s] == '.' {
                if s == 0 {
                    return None;
                }
                e = s;
            } else if e - s == 2 && v[s] == '.' && v[s + 1] == '.' {
                return None;
            } else {
                return Some((s, e));
            }
        }
    }
}

/// Extract the file extension from a path.
pub fn file_extension(path: &str) -> (r: Option<&str>)
    ensures
        match (r, extension_of(path@)) {
            (Some(x), Some(y)) => x@ == y,
            (None, None) => true,
            _ => false,
        },
{
    let v = chars_of(path);
    proof {
        lemma_name_range(v@, v.len() as int);
    }
    match file_name_range(&v) {
        None => None,
        Some((s, e)) => {
            let mut d = e;
            while d > s && v[d - 1] != '.'
                invariant
                    s <= d <= e <= v.len(),
                    dot_pos(v@, s as int, e as int) == dot_pos(v@, s as int, d as int),
                decreases d,
            {
                d = d - 1;
            }
            if d == s || d - 1 == s {
                None
            } else {
                Some(path.substring_char(d, e))
            }
        },
    }
}

#[verifier::external_type_specification]
#[verifier::external_body]
pub struct ExSyntaxSet(syntect::parsing::SyntaxSet);

#[verifier::external_type_specification]
#[verifier::external_body]
pub struct ExSyntaxReference(syntect::parsing::SyntaxReference);

#[verifier::external_type_specification]
#[verifier::external_body]
pub struct ExSynTheme(SynTheme);

/// `SyntaxSet::load_defaults_newlines`: the syntaxes built into syntect.
/// Nothing is stated of the set.
#[verifier::external_body]
fn load_syntaxes() -> (s: syntect::parsing::SyntaxSet) {
    syntect::parsing::SyntaxSet::load_defaults_newlines()
}

/// Whether syntect's built-in theme set (`ThemeSet::load_defaults`) has
/// a theme called `name`: the seven themes its documentation lists.
pub open spec fn listed_theme(name: Seq<char>) -> bool {
    ||| name == "base16-ocean.dark"@
    ||| name == "base16-eighties.dark"@
    ||| name == "base16-mocha.dark"@
    ||| name == "base16-ocean.light"@
    ||| name == "InspiredGitHub"@
    ||| name == "Solarized (dark)"@
    ||| name == "Solarized (light)"@
}

/// `ThemeSet::load_defaults`, and a copy of its theme called `name` (a
/// lookup in its `themes` map), if it has one. Stated: there is one exactly
/// when the name is one of the seven that syntect documents for the default
/// set. Nothing is stated of the theme's contents.
#[verifier::external_body]
fn default_theme(name: &str) -> (t: Option<SynTheme>)
    ensures
        (t is Some) == listed_theme(name@),
{
    syntect::highlighting::ThemeSet::load_defaults().themes.get(name).cloned()
}

/// The text of highlighted regions, one after another.
pub open spec fn region_text(rs: Seq<((u8, u8, u8), String)>) -> Seq<char>
    decreases rs.len(),
{
    if rs.len() == 0 {
        Seq::empty()
    } else {
        region_text(rs.drop_last()) + rs.last().1@
    }
}

/// Syntax highlighting of single lines with one theme. Its fields are
/// private and only `Highlighter::new` fills them: the syntax set is
/// syntect's built-in one, and the theme is the built-in theme called
/// `theme_name`.
pub struct Highlighter {
    syntax_set: syntect::parsing::SyntaxSet,
    theme: SynTheme,
    theme_name: String,
}

/// A syntax of the built-in set, found for the file extension `ext`.
pub struct FoundSyntax<'a> {
    syntax: &'a syntect::parsing::SyntaxReference,
    ext: String,
}

impl<'a> FoundSyntax<'a> {
    /// The extension the syntax was found for.
    pub closed spec fn ext(&self) -> String {
        self.ext
    }
}

/// Whether syntect's built-in syntax set has a syntax for the file
/// extension `ext` (`SyntaxSet::find_syntax_by_extension`).
pub uninterp spec fn syntax_for(ext: Seq<char>) -> bool;

/// What highlighting `line` gives in the built-in theme called `theme` and
/// the built-in syntax for `ext` (`HighlightLines::highlight_line` on a fresh
/// highlighter): each region's foreground colour and text, or `None` when
/// parsing fails.
pub uninterp spec fn highlighted(theme: Seq<char>, ext: Seq<char>, line: Seq<char>) -> Option<
    Seq<((u8, u8, u8), Seq<char>)>,
>;

/// The background and foreground colours of the settings of the built-in
/// theme called `theme`.
pub uninterp spec fn theme_colors_of(theme: Seq<char>) -> (Option<(u8, u8, u8)>, Option<(u8, u8, u8)>);

/// Regions as plain values.
pub open spec fn region_models(rs: Seq<((u8, u8, u8), String)>) -> Seq<((u8, u8, u8), Seq<char>)> {
    rs.map_values(|r: ((u8, u8, u8), String)| (r.0, r.1@))
}

/// `SyntaxSet::find_syntax_by_extension` on the highlighter's set (always the
/// built-in one): a syntax exactly when `syntax_for` of the extension holds.
/// Nothing is stated of which syntax it is.
#[verifier::external_body]
fn find_syntax<'a>(h: &'a Highlighter, ext: &str) -> (r: Option<FoundSyntax<'a>>)
    ensures
        (r is Some) == syntax_for(ext@),
        r matches Some(f) ==> f.ext()@ == ext@,
{
    h.syntax_set.find_syntax_by_extension(ext).map(|syntax| FoundSyntax { syntax, ext: ext.to_string() })
}

/// `HighlightLines::highlight_line` on a fresh highlighter for the found
/// syntax and the highlighter's theme: the regions of `line` with their
/// foreground colours, or `None` when parsing fails. The result is named
/// `highlighted` of the theme's name, the extension and the line; as syntect
/// documents, the regions' texts make up the line.
#[verifier::external_body]
fn highlight_with(h: &Highlighter, found: &FoundSyntax, line: &str) -> (r: Option<Vec<((u8, u8, u8), String)>>)
    ensures
        match r {
            Some(v) => highlighted(h.theme()@, found.ext()@, line@) == Some(region_models(v@)) && region_text(
                v@,
            ) == line@,
            None => highlighted(h.theme()@, found.ext()@, line@) is None,
        },
{
    let mut hl = syntect::easy::HighlightLines::new(found.syntax, &h.theme);
    match hl.highlight_line(line, &h.syntax_set) {
        Ok(rs) => Some(
            rs.into_iter().map(|(st, t)| ((st.foreground.r, st.foreground.g, st.foreground.b), t.to_string())).collect(),
        ),
        Err(_) => None,
    }
}

/// The background and foreground colours of the highlighter's theme's
/// settings, as red, green and blue (alpha left out): named
/// `theme_colors_of` the theme's name.
#[verifier::external_body]
fn theme_colors(h: &Highlighter) -> (c: (Option<(u8, u8, u8)>, Option<(u8, u8, u8)>))
    ensures
        c == theme_colors_of(h.theme()@),
{
    (
        h.theme.settings.background.map(|c| (c.r, c.g, c.b)),
        h.theme.settings.foreground.map(|c| (c.r, c.g, c.b)),
    )
}

/// The runs of a highlighted line on background `bg`, or `None`: no syntax
/// for the extension, or parsing failed. Each region keeps its text; its
/// foreground is kept readable against the theme's background.
pub open spec fn highlight_spec(theme: Seq<char>, ext: Seq<char>, line: Seq<char>, bg: Color) -> Option<
    Seq<StyledModel>,
> {
    if !syntax_for(ext) {
        None
    } else {
        match highlighted(theme, ext, line) {
            Some(rs) => Some(
                rs.map_values(
                    |x: ((u8, u8, u8), Seq<char>)|
                        (
                            x.1,
                            Some(foreground_spec(x.0, theme_colors_of(theme).0, theme_colors_of(theme).1)),
                            Some(bg),
                            false,
                            false,
                        ),
                ),
            ),
            None => None,
        }
    }
}

/// The text of styled runs, one after another.
pub open spec fn runs_text(rs: Seq<StyledModel>) -> Seq<char>
    decreases rs.len(),
{
    if rs.len() == 0 {
        Seq::empty()
    } else {
        runs_text(rs.drop_last()) + rs.last().0
    }
}

/// A highlighted region as a run on background `bg`, its foreground kept
/// readable against the theme's background.
pub open spec fn region_run(
    r: ((u8, u8, u8), String),
    theme_bg: Option<(u8, u8, u8)>,
    theme_fg: Option<(u8, u8, u8)>,
    bg: Color,
) -> StyledModel {
    (r.1@, Some(foreground_spec(r.0, theme_bg, theme_fg)), Some(bg), false, false)
}

/// Highlighted regions as runs on background `bg`, each foreground kept
/// readable against the theme's background.
pub fn styled_regions(
    rs: &Vec<((u8, u8, u8), String)>,
    theme_bg: Option<(u8, u8, u8)>,
    theme_fg: Option<(u8, u8, u8)>,
    bg: Color,
) -> (out: Vec<Styled>)
    ensures
        line_model(out@) == rs@.map_values(
            |r: ((u8, u8, u8), String)| (r.1@, Some(foreground_spec(r.0, theme_bg, theme_fg)), Some(bg), false, false),
        ),
        runs_text(line_model(out@)) == region_text(rs@),
{
    let mut out: Vec<Styled> = Vec::new();
    assert(line_model(out@) =~= rs@.take(0).map_values(|r: ((u8, u8, u8), String)| region_run(r, theme_bg, theme_fg, bg)));
    let mut i: usize = 0;
    while i < rs.len()
        invariant
            i <= rs.len(),
            line_model(out@) == rs@.take(i as int).map_values(|r: ((u8, u8, u8), String)| region_run(r, theme_bg, theme_fg, bg)),
            runs_text(line_model(out@)) == region_text(rs@.take(i as int)),
        decreases rs.len() - i,
    {
        let fg = pick_foreground(rs[i].0, theme_bg, theme_fg);
        let ghost before = line_model(out@);
        push_run(&mut out, span(rs[i].1.clone(), Some(fg), Some(bg), false));
        assert(rs@.take(i + 1) =~= rs@.take(i as int).push(rs@[i as int]));
        assert(rs@.take(i + 1).map_values(|r: ((u8, u8, u8), String)| region_run(r, theme_bg, theme_fg, bg)) =~= rs@.take(i as int).map_values(|r: ((u8, u8, u8), String)| region_run(r, theme_bg, theme_fg, bg)).push(region_run(rs@[i as int], theme_bg, theme_fg, bg)));
        assert(rs@.take(i + 1).drop_last() =~= rs@.take(i as int));
        assert(line_model(out@).drop_last() =~= before);
        i = i + 1;
    }
    assert(rs@.take(rs.len() as int) =~= rs@);
    out
}

impl Highlighter {
    /// A highlighter with syntect's syntaxes and its theme called
    /// `theme_name`, or `base16-eighties.dark` when there is none of that
    /// name.
    pub fn new(theme_name: &str) -> (h: Highlighter)
        ensures
            h.theme()@ == (if listed_theme(theme_name@) {
                theme_name@
            } else {
                "base16-eighties.dark"@
            }),
    {
        let syntax_set = load_syntaxes();
        let (theme, name) = match default_theme(theme_name) {
            Some(t) => (t, theme_name.to_owned()),
            None => {
                proof {
                    reveal_strlit("base16-eighties.dark");
                }
                (default_theme("base16-eighties.dark").unwrap(), "base16-eighties.dark".to_owned())
            },
        };
        Highlighter { syntax_set, theme, theme_name: name }
    }

    /// The name of the theme in use.
    pub closed spec fn theme(&self) -> String {
        self.theme_name
    }

    /// The line's runs in the syntax of `extension`, on background `bg`, or
    /// `None` when no syntax has that extension or parsing fails. The runs
    /// are the highlighted regions, their foregrounds kept readable against
    /// the theme's background; they make up the line.
    pub fn highlight_line(&self, content: &str, extension: &str, bg: Color) -> (r: Option<Vec<Styled>>)
        ensures
            match highlight_spec(self.theme()@, extension@, content@, bg) {
                Some(m) => r matches Some(v) && line_model(v@) == m,
                None => r is None,
            },
            r matches Some(v) ==> runs_text(line_model(v@)) == content@ && forall|k: int|
                0 <= k < v.len() ==> (#[trigger] v@[k]).bg == Some(bg) && v@[k].fg is Some && !v@[k].bold
                    && !v@[k].blink,
    {
        let found = match find_syntax(self, extension) {
            Some(f) => f,
            None => return None,
        };
        match highlight_with(self, &found, content) {
            None => None,
            Some(rs) => {
                let (theme_bg, theme_fg) = theme_colors(self);
                let out = styled_regions(&rs, theme_bg, theme_fg, bg);
                proof {
                    assert(rs@.map_values(|r: ((u8, u8, u8), String)| region_run(r, theme_bg, theme_fg, bg))
                        =~= region_models(rs@).map_values(
                        |x: ((u8, u8, u8), Seq<char>)|
                            (x.1, Some(foreground_spec(x.0, theme_bg, theme_fg)), Some(bg), false, false),
                    ));
                    assert forall|k: int| 0 <= k < out.len() implies (#[trigger] out@[k]).bg == Some(bg)
                        && out@[k].fg is Some && !out@[k].bold && !out@[k].blink by {
                        assert(line_model(out@)[k] == out@[k].model());
                    }
                }
                Some(out)
            },
        }
    }
}

} // verus!
