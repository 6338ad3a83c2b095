//! Text with a colour and an emphasis: what the views hand to the terminal.
use vstd::prelude::*;

use crate::text::{dec_digits, push_decimal};
use crate::theme::Color;

verus! {

broadcast use vstd::seq_lib::group_seq_properties;

/// A run of text drawn in one style. No colour means the terminal's own.
#[derive(Clone)]
pub struct Styled {
    pub text: String,
    pub fg: Option<Color>,
    pub bg: Option<Color>,
    pub bold: bool,
    pub blink: bool,
}

/// A styled run as plain values: text, foreground, background, bold, blinking.
pub type StyledModel = (Seq<char>, Option<Color>, Option<Color>, bool, bool);

impl Styled {
    pub open spec fn model(&self) -> StyledModel {
        (self.text@, self.fg, self.bg, self.bold, self.blink)
    }
}

/// A line of styled runs as plain values.
pub open spec fn line_model(l: Seq<Styled>) -> Seq<StyledModel> {
    l.map_values(|s: Styled| s.model())
}

/// Lines of styled runs as plain values.
pub open spec fn lines_model(ls: Seq<Vec<Styled>>) -> Seq<Seq<StyledModel>> {
    ls.map_values(|l: Vec<Styled>| line_model(l@))
}

/// Text in the terminal's own colours.
pub open spec fn plain(t: Seq<char>) -> StyledModel {
    (t, None, None, false, false)
}

/// Text in a foreground colour.
pub open spec fn in_fg(t: Seq<char>, c: Color) -> StyledModel {
    (t, Some(c), None, false, false)
}

/// Bold text in a foreground colour.
pub open spec fn bold_fg(t: Seq<char>, c: Color) -> StyledModel {
    (t, Some(c), None, true, false)
}

/// `n` spaces.
pub open spec fn spaces(n: int) -> Seq<char> {
    Seq::new(if n > 0 { n as nat } else { 0 }, |_i: int| ' ')
}

/// `t` right-aligned in a field of `w` characters.
pub open spec fn right_aligned(t: Seq<char>, w: int) -> Seq<char> {
    spaces(w - t.len()) + t
}

/// A run of text in the given style.
pub fn span(text: String, fg: Option<Color>, bg: Option<Color>, bold: bool) -> (s: Styled)
    ensures
        s.model() == (text@, fg, bg, bold, false),
{
    Styled { text, fg, bg, bold, blink: false }
}

/// A literal in the given style.
pub fn span_lit(text: &str, fg: Option<Color>, bg: Option<Color>, bold: bool) -> (s: Styled)
    ensures
        s.model() == (text@, fg, bg, bold, false),
{
    Styled { text: text.to_owned(), fg, bg, bold, blink: false }
}

/// A blinking literal in a foreground colour (a text cursor).
pub fn blinking(text: &str, fg: Color) -> (s: Styled)
    ensures
        s.model() == (text@, Some(fg), None::<Color>, false, true),
{
    Styled { text: text.to_owned(), fg: Some(fg), bg: None, bold: false, blink: true }
}

/// Append a run to a line.
pub fn push_run(line: &mut Vec<Styled>, s: Styled)
    ensures
        line_model(final(line)@) == line_model(old(line)@).push(s.model()),
{
    let ghost m = s.model();
    line.push(s);
    assert(line_model(line@) =~= line_model(old(line)@).push(m));
}

/// Append a line to a list of lines.
pub fn push_line(lines: &mut Vec<Vec<Styled>>, l: Vec<Styled>)
    ensures
        lines_model(final(lines)@) == lines_model(old(lines)@).push(line_model(l@)),
{
    let ghost m = line_model(l@);
    lines.push(l);
    assert(lines_model(lines@) =~= lines_model(old(lines)@).push(m));
}

/// A line of one run.
pub fn one_run(s: Styled) -> (l: Vec<Styled>)
    ensures
        line_model(l@) == seq![s.model()],
{
    let mut l: Vec<Styled> = Vec::new();
    push_run(&mut l, s);
    l
}

/// A line with nothing on it.
pub fn empty_line() -> (l: Vec<Styled>)
    ensures
        line_model(l@) == Seq::<StyledModel>::empty(),
{
    let l: Vec<Styled> = Vec::new();
    assert(line_model(l@) =~= Seq::<StyledModel>::empty());
    l
}

/// No lines yet.
pub fn no_lines() -> (ls: Vec<Vec<Styled>>)
    ensures
        lines_model(ls@) == Seq::<Seq<StyledModel>>::empty(),
{
    let ls: Vec<Vec<Styled>> = Vec::new();
    assert(lines_model(ls@) =~= Seq::<Seq<StyledModel>>::empty());
    ls
}

/// Append `n` spaces.
pub fn push_spaces(s: &mut String, n: usize)
    ensures
        final(s)@ == old(s)@ + spaces(n as int),
{
    let ghost start = s@;
    let mut k: usize = 0;
    while k < n
        invariant
            k <= n,
            s@ == start + spaces(k as int),
        decreases n - k,
    {
        s.push(' ');
        assert(spaces(k + 1) =~= spaces(k as int).push(' '));
        k = k + 1;
    }
}

/// `n` in decimal.
pub fn decimal(n: u64) -> (s: String)
    ensures
        s@ == dec_digits(n as nat),
{
    let mut s = String::new();
    push_decimal(&mut s, n);
    s
}

} // verus!
