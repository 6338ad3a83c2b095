//! Merge-conflict files: parsing the `<<<<<<<` / `=======` / `>>>>>>>`
//! blocks and writing back the lines the user picked.
use vstd::prelude::*;

use crate::text::{
    drop_leading, file_text, join_lines, lines_of, split_lines, string_of, trim_marker_name,
    trim_ws,
};

verus! {

/// How one conflict block is to be written back.
#[derive(Debug, Clone, Copy, PartialEq, Eq, Structural)]
pub enum ConflictResolution {
    Unresolved,
    Ours,
    Theirs,
    Both,
}

/// One conflict block and the lines that follow it up to the next block.
#[derive(Clone)]
pub struct ConflictSection {
    pub ours: Vec<String>,
    pub theirs: Vec<String>,
    pub resolution: ConflictResolution,
    /// Lines between this conflict and the next
    pub suffix: Vec<String>,
}

/// The conflict resolver's state for one file.
pub struct ConflictState {
    pub file_path: String,
    pub sections: Vec<ConflictSection>,
    pub current_section: usize,
    /// Lines before first conflict
    pub prefix: Vec<String>,
    /// Branch name from <<<<<<< marker (e.g. "HEAD" or "master")
    pub left_name: String,
    /// Branch name from >>>>>>> marker (e.g. "feature-branch")
    pub right_name: String,
}

/// What `parse_conflicts` finds in a file.
pub struct ParsedConflicts {
    pub prefix: Vec<String>,
    pub sections: Vec<ConflictSection>,
    pub left_name: String,
    pub right_name: String,
}

/// A section as plain line sequences: ours, theirs, suffix.
pub type SectionModel = (Seq<Seq<char>>, Seq<Seq<char>>, Seq<Seq<char>>);

impl ConflictSection {
    pub open spec fn model(&self) -> SectionModel {
        (self.ours.deep_view(), self.theirs.deep_view(), self.suffix.deep_view())
    }
}

/// Whether line `l` starts with seven copies of `c` (a conflict marker).
pub open spec fn is_marker(l: Seq<char>, c: char) -> bool {
    l.len() >= 7 && forall|k: int| 0 <= k < 7 ==> l[k] == c
}

/// The first index at or after `i` that holds a `c` marker, or the end.
pub open spec fn scan_until(ls: Seq<Seq<char>>, i: int, c: char) -> int
    decreases ls.len() - i,
{
    if i >= ls.len() {
        i
    } else if is_marker(ls[i], c) {
        i
    } else {
        scan_until(ls, i + 1, c)
    }
}

pub proof fn lemma_scan_bounds(ls: Seq<Seq<char>>, i: int, c: char)
    ensures
        scan_until(ls, i, c) >= i,
        i <= ls.len() ==> scan_until(ls, i, c) <= ls.len(),
        scan_until(ls, i, c) < ls.len() ==> is_marker(ls[scan_until(ls, i, c)], c),
        forall|k: int| i <= k < scan_until(ls, i, c) ==> !is_marker(#[trigger] ls[k], c),
    decreases ls.len() - i,
{
    if i < ls.len() && !is_marker(ls[i], c) {
        lemma_scan_bounds(ls, i + 1, c);
    }
}

/// End of "ours" for the block whose opening marker is line `m`.
pub open spec fn ours_end(ls: Seq<Seq<char>>, m: int) -> int {
    scan_until(ls, m + 1, '=')
}

pub open spec fn theirs_start(ls: Seq<Seq<char>>, m: int) -> int {
    if ours_end(ls, m) < ls.len() {
        ours_end(ls, m) + 1
    } else {
        ls.len() as int
    }
}

/// Index of the closing marker (or the end) for the block at `m`.
pub open spec fn theirs_end(ls: Seq<Seq<char>>, m: int) -> int {
    scan_until(ls, theirs_start(ls, m), '>')
}

pub open spec fn suffix_start(ls: Seq<Seq<char>>, m: int) -> int {
    if theirs_end(ls, m) < ls.len() {
        theirs_end(ls, m) + 1
    } else {
        ls.len() as int
    }
}

/// Where the next block starts (or the end).
pub open spec fn next_block(ls: Seq<Seq<char>>, m: int) -> int {
    scan_until(ls, suffix_start(ls, m), '<')
}

pub proof fn lemma_block_bounds(ls: Seq<Seq<char>>, m: int)
    requires
        0 <= m < ls.len(),
    ensures
        m + 1 <= ours_end(ls, m) <= ls.len(),
        ours_end(ls, m) <= theirs_start(ls, m) <= ls.len(),
        theirs_start(ls, m) <= theirs_end(ls, m) <= ls.len(),
        theirs_end(ls, m) <= suffix_start(ls, m) <= ls.len(),
        suffix_start(ls, m) <= next_block(ls, m) <= ls.len(),
        m < next_block(ls, m),
{
    lemma_scan_bounds(ls, m + 1, '=');
    lemma_scan_bounds(ls, theirs_start(ls, m), '>');
    lemma_scan_bounds(ls, suffix_start(ls, m), '<');
}

/// The block at `m` as (ours, theirs, suffix).
pub open spec fn block_at(ls: Seq<Seq<char>>, m: int) -> SectionModel {
    (
        ls.subrange(m + 1, ours_end(ls, m)),
        ls.subrange(theirs_start(ls, m), theirs_end(ls, m)),
        ls.subrange(suffix_start(ls, m), next_block(ls, m)),
    )
}

/// All blocks from the one at `m` on.
pub open spec fn blocks_from(ls: Seq<Seq<char>>, m: int) -> Seq<SectionModel>
    decreases ls.len() - m,
{
    if m < 0 || m >= ls.len() {
        Seq::empty()
    } else {
        proof {
            lemma_block_bounds(ls, m);
        }
        seq![block_at(ls, m)] + blocks_from(ls, next_block(ls, m))
    }
}

/// The first non-empty name on an opening marker, from the block at `m` on.
pub open spec fn left_name_from(ls: Seq<Seq<char>>, m: int) -> Seq<char>
    decreases ls.len() - m,
{
    if m < 0 || m >= ls.len() {
        Seq::empty()
    } else {
        proof {
            lemma_block_bounds(ls, m);
        }
        let name = trim_ws(drop_leading(ls[m], '<'));
        if name.len() > 0 {
            name
        } else {
            left_name_from(ls, next_block(ls, m))
        }
    }
}

/// The first non-empty name on a closing marker, from the block at `m` on.
pub open spec fn right_name_from(ls: Seq<Seq<char>>, m: int) -> Seq<char>
    decreases ls.len() - m,
{
    if m < 0 || m >= ls.len() {
        Seq::empty()
    } else {
        proof {
            lemma_block_bounds(ls, m);
        }
        let te = theirs_end(ls, m);
        if te < ls.len() && trim_ws(drop_leading(ls[te], '>')).len() > 0 {
            trim_ws(drop_leading(ls[te], '>'))
        } else {
            right_name_from(ls, next_block(ls, m))
        }
    }
}

/// `name`, or `default` when `name` is empty.
pub open spec fn or_default(name: Seq<char>, default: Seq<char>) -> Seq<char> {
    if name.len() > 0 {
        name
    } else {
        default
    }
}

/// Whether `p` is what the lines `ls` of a file hold: the lines before the
/// first opening marker, every block from there on (unresolved), and the
/// first non-empty branch names ("left" and "right" when there are none).
pub open spec fn parsed_from(ls: Seq<Seq<char>>, p: ParsedConflicts) -> bool {
    let f = scan_until(ls, 0, '<');
    &&& p.prefix.deep_view() == ls.take(f)
    &&& p.sections.len() == blocks_from(ls, f).len()
    &&& forall|i: int|
        0 <= i < p.sections.len() ==> #[trigger] p.sections[i].model() == blocks_from(ls, f)[i]
            && p.sections[i].resolution == ConflictResolution::Unresolved
    &&& p.left_name@ == or_default(left_name_from(ls, f), seq!['l', 'e', 'f', 't'])
    &&& p.right_name@ == or_default(right_name_from(ls, f), seq!['r', 'i', 'g', 'h', 't'])
}

fn line_is_marker(l: &Vec<char>, c: char) -> (b: bool)
    ensures
        b == is_marker(l@, c),
{
    if l.len() < 7 {
        return false;
    }
    let mut k: usize = 0;
    while k < 7
        invariant
            k <= 7 <= l.len(),
            forall|j: int| 0 <= j < k ==> l@[j] == c,
        decreases 7 - k,
    {
        if l[k] != c {
            return false;
        }
        k = k + 1;
    }
    true
}

fn scan_marker(ls: &Vec<Vec<char>>, i: usize, c: char) -> (r: usize)
    requires
        i <= ls.len(),
    ensures
        r == scan_until(ls.deep_view(), i as int, c),
{
    let ghost dv = ls.deep_view();
    let mut j = i;
    while j < ls.len() && !line_is_marker(&ls[j], c)
        invariant
            i <= j <= ls.len(),
            dv == ls.deep_view(),
            scan_until(dv, i as int, c) == scan_until(dv, j as int, c),
        decreases ls.len() - j,
    {
        assert(dv[j as int] == ls@[j as int]@);
        j = j + 1;
    }
    if j < ls.len() {
        assert(dv[j as int] == ls@[j as int]@);
    }
    j
}

fn strings_of(ls: &Vec<Vec<char>>, a: usize, b: usize) -> (v: Vec<String>)
    requires
        a <= b <= ls.len(),
    ensures
        v.deep_view() == ls.deep_view().subrange(a as int, b as int),
{
    let mut v: Vec<String> = Vec::new();
    let mut i = a;
    while i < b
        invariant
            a <= i <= b <= ls.len(),
            v.deep_view() == ls.deep_view().subrange(a as int, i as int),
        decreases b - i,
    {
        let s = string_of(&ls[i], 0, ls[i].len());
        let ghost before = v.deep_view();
        assert(ls[i as int]@.subrange(0, ls[i as int]@.len() as int) == ls[i as int]@);
        assert(ls.deep_view()[i as int] =~= ls[i as int]@);
        v.push(s);
        assert(v.deep_view() =~= before.push(s@));
        assert(ls.deep_view().subrange(a as int, i + 1) =~= ls.deep_view().subrange(
            a as int,
            i as int,
        ).push(ls.deep_view()[i as int]));
        i = i + 1;
    }
    v
}

/// Parse a file with conflict markers. `None` when no line starts with
/// `<<<<<<<`.
pub fn parse_conflicts(content: &str) -> (r: Option<ParsedConflicts>)
    ensures
        r.is_none() <==> scan_until(lines_of(content@), 0, '<') >= lines_of(content@).len(),
        r matches Some(p) ==> parsed_from(lines_of(content@), p),
{
    let ls = split_lines(content);
    let ghost dv = ls.deep_view();
    let n = ls.len();
    let first = scan_marker(&ls, 0, '<');
    proof {
        lemma_scan_bounds(dv, 0, '<');
    }
    if first >= n {
        return None;
    }
    let prefix = strings_of(&ls, 0, first);
    let mut sections: Vec<ConflictSection> = Vec::new();
    let mut left_name = String::new();
    let mut right_name = String::new();
    let mut m = first;
    while m < n
        invariant
            first <= m <= n == ls.len(),
            dv == ls.deep_view(),
            sections@.map_values(|s: ConflictSection| s.model()) + blocks_from(dv, m as int)
                == blocks_from(dv, first as int),
            forall|i: int|
                0 <= i < sections.len() ==> (#[trigger] sections[i]).resolution
                    == ConflictResolution::Unresolved,
            or_default(left_name@, left_name_from(dv, m as int)) == left_name_from(
                dv,
                first as int,
            ),
            or_default(right_name@, right_name_from(dv, m as int)) == right_name_from(
                dv,
                first as int,
            ),
        decreases n - m,
    {
        proof {
            lemma_block_bounds(dv, m as int);
        }
        let oe = scan_marker(&ls, m + 1, '=');
        let ts = if oe < n {
            oe + 1
        } else {
            n
        };
        let te = scan_marker(&ls, ts, '>');
        let ss = if te < n {
            te + 1
        } else {
            n
        };
        let ne = scan_marker(&ls, ss, '<');
        if left_name.as_str().is_empty() {
            left_name = trim_marker_name(&ls[m], '<');
            assert(dv[m as int] == ls@[m as int]@);
        }
        if te < n && right_name.as_str().is_empty() {
            right_name = trim_marker_name(&ls[te], '>');
            assert(dv[te as int] == ls@[te as int]@);
        }
        let section = ConflictSection {
            ours: strings_of(&ls, m + 1, oe),
            theirs: strings_of(&ls, ts, te),
            resolution: ConflictResolution::Unresolved,
            suffix: strings_of(&ls, ss, ne),
        };
        let ghost before = sections@.map_values(|s: ConflictSection| s.model());
        sections.push(section);
        assert(sections@.map_values(|s: ConflictSection| s.model()) =~= before.push(
            section.model(),
        ));
        assert(blocks_from(dv, m as int) == seq![block_at(dv, m as int)] + blocks_from(
            dv,
            ne as int,
        ));
        assert(before.push(section.model()) + blocks_from(dv, ne as int) =~= before
            + blocks_from(dv, m as int));
        m = ne;
    }
    if left_name.as_str().is_empty() {
        left_name = String::from_str("left");
        proof {
            reveal_strlit("left");
        }
    }
    if right_name.as_str().is_empty() {
        right_name = String::from_str("right");
        proof {
            reveal_strlit("right");
        }
    }
    let ghost models = sections@.map_values(|s: ConflictSection| s.model());
    assert(blocks_from(dv, n as int) == Seq::<SectionModel>::empty());
    assert(models =~= blocks_from(dv, first as int));
    assert forall|i: int| 0 <= i < sections.len() implies #[trigger] sections[i].model()
        == blocks_from(dv, first as int)[i] by {
        assert(models[i] == sections@[i].model());
    }
    assert(prefix.deep_view() =~= dv.take(first as int));
    assert(left_name@ == or_default(left_name_from(dv, first as int), seq!['l', 'e', 'f', 't']));
    assert(right_name@ == or_default(right_name_from(dv, first as int), seq!['r', 'i', 'g', 'h', 't']));
    Some(ParsedConflicts { prefix, sections, left_name, right_name })
}

/// The lines a section contributes under `res`.
pub open spec fn picked_lines(m: SectionModel, res: ConflictResolution) -> Seq<Seq<char>> {
    match res {
        ConflictResolution::Ours => m.0,
        ConflictResolution::Theirs => m.1,
        ConflictResolution::Both => m.0 + m.1,
        ConflictResolution::Unresolved => Seq::empty(),
    }
}

/// The picked lines and suffix of every section, in order.
pub open spec fn resolved_sections(secs: Seq<ConflictSection>) -> Seq<Seq<char>>
    decreases secs.len(),
{
    if secs.len() == 0 {
        Seq::empty()
    } else {
        resolved_sections(secs.drop_last()) + picked_lines(
            secs.last().model(),
            secs.last().resolution,
        ) + secs.last().model().2
    }
}

/// Number of sections still unresolved.
pub open spec fn unresolved_in(secs: Seq<ConflictSection>) -> nat
    decreases secs.len(),
{
    if secs.len() == 0 {
        0
    } else {
        unresolved_in(secs.drop_last()) + if secs.last().resolution
            == ConflictResolution::Unresolved {
            1nat
        } else {
            0nat
        }
    }
}

fn push_all(out: &mut Vec<String>, src: &Vec<String>)
    ensures
        final(out).deep_view() == old(out).deep_view() + src.deep_view(),
{
    let ghost start = out.deep_view();
    let mut i: usize = 0;
    while i < src.len()
        invariant
            i <= src.len(),
            out.deep_view() == start + src.deep_view().take(i as int),
        decreases src.len() - i,
    {
        let ghost before = out.deep_view();
        out.push(src[i].clone());
        assert(out.deep_view() =~= before.push(src[i as int]@));
        assert(src.deep_view().take(i + 1) =~= src.deep_view().take(i as int).push(
            src.deep_view()[i as int],
        ));
        i = i + 1;
    }
    assert(src.deep_view().take(src.len() as int) =~= src.deep_view());
}

impl ConflictState {
    /// The current section is a section of the file.
    pub open spec fn wf(&self) -> bool {
        self.current_section < self.sections.len()
    }

    /// The resolver state for a parsed file, at its first section.
    pub fn from_parsed(file_path: String, parsed: ParsedConflicts) -> (cs: ConflictState)
        ensures
            cs.file_path == file_path,
            cs.sections@ == parsed.sections@,
            cs.current_section == 0,
            cs.prefix@ == parsed.prefix@,
            cs.left_name == parsed.left_name,
            cs.right_name == parsed.right_name,
    {
        ConflictState {
            file_path,
            sections: parsed.sections,
            current_section: 0,
            prefix: parsed.prefix,
            left_name: parsed.left_name,
            right_name: parsed.right_name,
        }
    }

    /// Mark the current section with `resolution`; returns the label shown
    /// for the pick (the branch name for ours and theirs).
    pub fn pick(&mut self, resolution: ConflictResolution) -> (label: String)
        requires
            old(self).wf(),
        ensures
            final(self).wf(),
            final(self).current_section == old(self).current_section,
            final(self).sections.len() == old(self).sections.len(),
            final(self).sections[old(self).current_section as int].resolution == resolution,
            final(self).sections[old(self).current_section as int].model() == old(
                self,
            ).sections[old(self).current_section as int].model(),
            forall|i: int|
                0 <= i < old(self).sections.len() && i != old(self).current_section ==> (
                #[trigger] final(self).sections[i]) == old(self).sections[i],
            final(self).prefix@ == old(self).prefix@,
            final(self).file_path == old(self).file_path,
            final(self).left_name == old(self).left_name,
            final(self).right_name == old(self).right_name,
            label@ == match resolution {
                ConflictResolution::Ours => old(self).left_name@,
                ConflictResolution::Theirs => old(self).right_name@,
                ConflictResolution::Both => seq!['b', 'o', 't', 'h'],
                ConflictResolution::Unresolved => seq![
                    'u',
                    'n',
                    'r',
                    'e',
                    's',
                    'o',
                    'l',
                    'v',
                    'e',
                    'd',
                ],
            },
    {
        let cur = self.current_section;
        self.sections[cur].resolution = resolution;
        match resolution {
            ConflictResolution::Ours => self.left_name.clone(),
            ConflictResolution::Theirs => self.right_name.clone(),
            ConflictResolution::Both => {
                proof {
                    reveal_strlit("both");
                }
                String::from_str("both")
            },
            ConflictResolution::Unresolved => {
                proof {
                    reveal_strlit("unresolved");
                }
                String::from_str("unresolved")
            },
        }
    }

    /// Move to the previous section, staying at the first.
    pub fn prev_section(&mut self)
        requires
            old(self).wf(),
        ensures
            final(self).wf(),
            *final(self) == (ConflictState {
                current_section: if old(self).current_section > 0 {
                    (old(self).current_section - 1) as usize
                } else {
                    0
                },
                ..*old(self)
            }),
    {
        if self.current_section > 0 {
            self.current_section = self.current_section - 1;
        }
    }

    /// Move to the next section, staying at the last.
    pub fn next_section(&mut self)
        requires
            old(self).wf(),
        ensures
            final(self).wf(),
            *final(self) == (ConflictState {
                current_section: if old(self).current_section + 1 < old(self).sections.len() {
                    (old(self).current_section + 1) as usize
                } else {
                    old(self).current_section
                },
                ..*old(self)
            }),
    {
        if self.current_section + 1 < self.sections.len() {
            self.current_section = self.current_section + 1;
        }
    }

    /// How many sections are still unresolved.
    pub fn unresolved_count(&self) -> (n: usize)
        ensures
            n == unresolved_in(self.sections@),
    {
        let mut n: usize = 0;
        let mut i: usize = 0;
        while i < self.sections.len()
            invariant
                i <= self.sections.len(),
                n == unresolved_in(self.sections@.take(i as int)),
                n <= i,
            decreases self.sections.len() - i,
        {
            assert(self.sections@.take(i + 1).drop_last() =~= self.sections@.take(i as int));
            if self.sections[i].resolution == ConflictResolution::Unresolved {
                n = n + 1;
            }
            i = i + 1;
        }
        assert(self.sections@.take(self.sections.len() as int) =~= self.sections@);
        n
    }

    /// The lines to write back: the prefix, then for each section the
    /// picked lines (none while unresolved) and its suffix.
    pub fn resolved_lines(&self) -> (out: Vec<String>)
        ensures
            out.deep_view() == self.prefix.deep_view() + resolved_sections(self.sections@),
    {
        let mut out: Vec<String> = Vec::new();
        push_all(&mut out, &self.prefix);
        assert(out.deep_view() =~= self.prefix.deep_view());
        let mut i: usize = 0;
        while i < self.sections.len()
            invariant
                i <= self.sections.len(),
                out.deep_view() == self.prefix.deep_view() + resolved_sections(
                    self.sections@.take(i as int),
                ),
            decreases self.sections.len() - i,
        {
            let ghost before = out.deep_view();
            let section = &self.sections[i];
            match section.resolution {
                ConflictResolution::Ours => push_all(&mut out, &section.ours),
                ConflictResolution::Theirs => push_all(&mut out, &section.theirs),
                ConflictResolution::Both => {
                    push_all(&mut out, &section.ours);
                    push_all(&mut out, &section.theirs);
                },
                ConflictResolution::Unresolved => {},
            }
            push_all(&mut out, &section.suffix);
            assert(self.sections@.take(i + 1).drop_last() =~= self.sections@.take(i as int));
            assert(out.deep_view() =~= before + picked_lines(section.model(), section.resolution)
                + section.model().2);
            i = i + 1;
        }
        assert(self.sections@.take(self.sections.len() as int) =~= self.sections@);
        out
    }

    /// The file text to save once every section is resolved.
    pub fn resolved_content(&self) -> (s: String)
        ensures
            s@ == file_text(self.prefix.deep_view() + resolved_sections(self.sections@)),
    {
        let lines = self.resolved_lines();
        join_lines(&lines)
    }
}

/// Which marker a line is: 1 for `<<<<<<<`, 2 for `=======`, 3 for
/// `>>>>>>>`, 0 for a line of content.
pub open spec fn marker_kind(l: Seq<char>) -> int {
    if is_marker(l, '<') {
        1
    } else if is_marker(l, '=') {
        2
    } else if is_marker(l, '>') {
        3
    } else {
        0
    }
}

/// The lines of `ls` that are not markers, in order.
pub open spec fn content_lines(ls: Seq<Seq<char>>) -> Seq<Seq<char>>
    decreases ls.len(),
{
    if ls.len() == 0 {
        Seq::empty()
    } else {
        (if marker_kind(ls[0]) == 0 {
            seq![ls[0]]
        } else {
            Seq::empty()
        }) + content_lines(ls.skip(1))
    }
}

/// Whether the markers of `ls` from line `i` on come in the order
/// `<<<<<<<`, `=======`, `>>>>>>>`, again and again, with none left open at
/// the end. `phase` is how many markers of the current block were seen.
pub open spec fn markers_nest(ls: Seq<Seq<char>>, i: int, phase: int) -> bool
    decreases ls.len() - i,
{
    if i < 0 {
        false
    } else if i >= ls.len() {
        phase == 0
    } else {
        let k = marker_kind(ls[i]);
        if k == 0 {
            markers_nest(ls, i + 1, phase)
        } else if k == phase + 1 {
            markers_nest(ls, i + 1, if phase == 2 {
                0
            } else {
                phase + 1
            })
        } else {
            false
        }
    }
}

/// The lines of sections, one section after another: ours, theirs, then
/// the lines that follow.
pub open spec fn section_lines(bs: Seq<SectionModel>) -> Seq<Seq<char>>
    decreases bs.len(),
{
    if bs.len() == 0 {
        Seq::empty()
    } else {
        bs[0].0 + bs[0].1 + bs[0].2 + section_lines(bs.skip(1))
    }
}

proof fn lemma_content_add(a: Seq<Seq<char>>, b: Seq<Seq<char>>)
    ensures
        content_lines(a + b) == content_lines(a) + content_lines(b),
    decreases a.len(),
{
    if a.len() > 0 {
        assert((a + b).skip(1) =~= a.skip(1) + b);
        assert((a + b)[0] == a[0]);
        lemma_content_add(a.skip(1), b);
    } else {
        assert(a + b =~= b);
    }
}

proof fn lemma_content_plain(s: Seq<Seq<char>>)
    requires
        forall|k: int| 0 <= k < s.len() ==> marker_kind(#[trigger] s[k]) == 0,
    ensures
        content_lines(s) == s,
    decreases s.len(),
{
    if s.len() > 0 {
        assert forall|k: int| 0 <= k < s.skip(1).len() implies marker_kind(#[trigger] s.skip(1)[k]) == 0 by {
            assert(s.skip(1)[k] == s[k + 1]);
        }
        lemma_content_plain(s.skip(1));
        assert(seq![s[0]] + s.skip(1) =~= s);
    }
}

proof fn lemma_content_marker(l: Seq<char>)
    requires
        marker_kind(l) != 0,
    ensures
        content_lines(seq![l]) == Seq::<Seq<char>>::empty(),
{
    assert(seq![l].skip(1).len() == 0);
    assert(content_lines(seq![l].skip(1)) == Seq::<Seq<char>>::empty());
}

/// Scanning for the marker that the nesting expects next finds it, with
/// only content lines before it.
proof fn lemma_nest_scan(ls: Seq<Seq<char>>, i: int, phase: int)
    requires
        0 <= i <= ls.len(),
        0 <= phase <= 2,
        markers_nest(ls, i, phase),
    ensures
        ({
            let c = if phase == 0 {
                '<'
            } else if phase == 1 {
                '='
            } else {
                '>'
            };
            let j = scan_until(ls, i, c);
            &&& i <= j <= ls.len()
            &&& forall|k: int| i <= k < j ==> marker_kind(#[trigger] ls[k]) == 0
            &&& phase != 0 ==> j < ls.len()
            &&& j < ls.len() ==> marker_kind(ls[j]) == phase + 1 && markers_nest(ls, j + 1, if phase == 2 {
                0
            } else {
                phase + 1
            })
            &&& j < ls.len() ==> markers_nest(ls, j, phase)
        }),
    decreases ls.len() - i,
{
    if i < ls.len() {
        let k = marker_kind(ls[i]);
        if k == 0 {
            lemma_nest_scan(ls, i + 1, phase);
        }
    }
}

proof fn lemma_blocks_keep_content(ls: Seq<Seq<char>>, m: int)
    requires
        0 <= m < ls.len(),
        marker_kind(ls[m]) == 1,
        markers_nest(ls, m, 0),
    ensures
        section_lines(blocks_from(ls, m)) == content_lines(ls.subrange(m, ls.len() as int)),
    decreases ls.len() - m,
{
    lemma_block_bounds(ls, m);
    lemma_nest_scan(ls, m + 1, 1);
    let oe = ours_end(ls, m);
    lemma_nest_scan(ls, oe + 1, 2);
    let te = theirs_end(ls, m);
    lemma_nest_scan(ls, te + 1, 0);
    let nb = next_block(ls, m);
    let n = ls.len() as int;
    let b = block_at(ls, m);
    assert(blocks_from(ls, m).skip(1) =~= blocks_from(ls, nb));
    if nb < n {
        lemma_blocks_keep_content(ls, nb);
    } else {
        assert(ls.subrange(nb, n).len() == 0);
        assert(content_lines(ls.subrange(nb, n)) == Seq::<Seq<char>>::empty());
        assert(blocks_from(ls, nb).len() == 0);
    }
    let rest = content_lines(ls.subrange(nb, n));
    assert(ls.subrange(m, n) =~= seq![ls[m]] + ls.subrange(m + 1, oe) + seq![ls[oe]] + ls.subrange(oe + 1, te)
        + seq![ls[te]] + ls.subrange(te + 1, nb) + ls.subrange(nb, n));
    lemma_content_add(seq![ls[m]] + ls.subrange(m + 1, oe) + seq![ls[oe]] + ls.subrange(oe + 1, te)
        + seq![ls[te]] + ls.subrange(te + 1, nb), ls.subrange(nb, n));
    lemma_content_add(seq![ls[m]] + ls.subrange(m + 1, oe) + seq![ls[oe]] + ls.subrange(oe + 1, te)
        + seq![ls[te]], ls.subrange(te + 1, nb));
    lemma_content_add(seq![ls[m]] + ls.subrange(m + 1, oe) + seq![ls[oe]] + ls.subrange(oe + 1, te), seq![ls[te]]);
    lemma_content_add(seq![ls[m]] + ls.subrange(m + 1, oe) + seq![ls[oe]], ls.subrange(oe + 1, te));
    lemma_content_add(seq![ls[m]] + ls.subrange(m + 1, oe), seq![ls[oe]]);
    lemma_content_add(seq![ls[m]], ls.subrange(m + 1, oe));
    lemma_content_marker(ls[m]);
    lemma_content_marker(ls[oe]);
    lemma_content_marker(ls[te]);
    assert forall|k: int| 0 <= k < ls.subrange(m + 1, oe).len() implies marker_kind(
        #[trigger] ls.subrange(m + 1, oe)[k],
    ) == 0 by {
        assert(ls.subrange(m + 1, oe)[k] == ls[m + 1 + k]);
    }
    assert forall|k: int| 0 <= k < ls.subrange(oe + 1, te).len() implies marker_kind(
        #[trigger] ls.subrange(oe + 1, te)[k],
    ) == 0 by {
        assert(ls.subrange(oe + 1, te)[k] == ls[oe + 1 + k]);
    }
    assert forall|k: int| 0 <= k < ls.subrange(te + 1, nb).len() implies marker_kind(
        #[trigger] ls.subrange(te + 1, nb)[k],
    ) == 0 by {
        assert(ls.subrange(te + 1, nb)[k] == ls[te + 1 + k]);
    }
    lemma_content_plain(ls.subrange(m + 1, oe));
    lemma_content_plain(ls.subrange(oe + 1, te));
    lemma_content_plain(ls.subrange(te + 1, nb));
    assert(section_lines(blocks_from(ls, m)) == b.0 + b.1 + b.2 + section_lines(blocks_from(ls, nb)));
}

/// The positions, from line `i` on, of the markers of kind `k` (see
/// `marker_kind`), in order.
pub open spec fn marks_from(ls: Seq<Seq<char>>, i: int, k: int) -> Seq<int>
    decreases ls.len() - i,
{
    if i < 0 || i >= ls.len() {
        Seq::empty()
    } else {
        (if marker_kind(ls[i]) == k {
            seq![i]
        } else {
            Seq::empty()
        }) + marks_from(ls, i + 1, k)
    }
}

/// The section of the `i`-th marker block, given the positions of the
/// opening (`lt`), middle (`eq`) and closing (`gt`) markers: the lines
/// between the opening and middle markers, between the middle and closing
/// markers, and from the closing marker to the next opening one or the end.
pub open spec fn section_between(ls: Seq<Seq<char>>, lt: Seq<int>, eq: Seq<int>, gt: Seq<int>, i: int) -> SectionModel {
    let next = if i + 1 < lt.len() {
        lt[i + 1]
    } else {
        ls.len() as int
    };
    (ls.subrange(lt[i] + 1, eq[i]), ls.subrange(eq[i] + 1, gt[i]), ls.subrange(gt[i] + 1, next))
}

proof fn lemma_marks_skip(ls: Seq<Seq<char>>, i: int, j: int, k: int)
    requires
        0 <= i <= j <= ls.len(),
        forall|x: int| i <= x < j ==> marker_kind(#[trigger] ls[x]) == 0,
        1 <= k <= 3,
    ensures
        marks_from(ls, i, k) == marks_from(ls, j, k),
    decreases j - i,
{
    if i < j {
        lemma_marks_skip(ls, i + 1, j, k);
        assert(marks_from(ls, i, k) =~= marks_from(ls, i + 1, k));
    }
}

proof fn lemma_blocks_at_marks(ls: Seq<Seq<char>>, m: int)
    requires
        0 <= m < ls.len(),
        marker_kind(ls[m]) == 1,
        markers_nest(ls, m, 0),
    ensures
        ({
            let bs = blocks_from(ls, m);
            let lt = marks_from(ls, m, 1);
            let eq = marks_from(ls, m, 2);
            let gt = marks_from(ls, m, 3);
            &&& bs.len() == lt.len() == eq.len() == gt.len()
            &&& lt.len() > 0 && lt[0] == m
            &&& forall|i: int| 0 <= i < bs.len() ==> #[trigger] bs[i] == section_between(ls, lt, eq, gt, i)
        }),
    decreases ls.len() - m,
{
    lemma_block_bounds(ls, m);
    lemma_nest_scan(ls, m + 1, 1);
    let oe = ours_end(ls, m);
    lemma_nest_scan(ls, oe + 1, 2);
    let te = theirs_end(ls, m);
    lemma_nest_scan(ls, te + 1, 0);
    let nb = next_block(ls, m);
    let n = ls.len() as int;
    let bs = blocks_from(ls, m);
    let lt = marks_from(ls, m, 1);
    let eq = marks_from(ls, m, 2);
    let gt = marks_from(ls, m, 3);
    let lt2 = marks_from(ls, nb, 1);
    let eq2 = marks_from(ls, nb, 2);
    let gt2 = marks_from(ls, nb, 3);
    // Between the opening marker and the next block there are exactly three
    // markers, one of each kind.
    lemma_marks_skip(ls, m + 1, oe, 1);
    lemma_marks_skip(ls, m + 1, oe, 2);
    lemma_marks_skip(ls, m + 1, oe, 3);
    lemma_marks_skip(ls, oe + 1, te, 1);
    lemma_marks_skip(ls, oe + 1, te, 2);
    lemma_marks_skip(ls, oe + 1, te, 3);
    lemma_marks_skip(ls, te + 1, nb, 1);
    lemma_marks_skip(ls, te + 1, nb, 2);
    lemma_marks_skip(ls, te + 1, nb, 3);
    assert(lt =~= seq![m] + lt2);
    assert(eq =~= seq![oe] + eq2);
    assert(gt =~= seq![te] + gt2);
    assert(bs.skip(1) =~= blocks_from(ls, nb));
    if nb < n {
        lemma_blocks_at_marks(ls, nb);
    } else {
        assert(lt2.len() == 0 && eq2.len() == 0 && gt2.len() == 0);
        assert(blocks_from(ls, nb).len() == 0);
    }
    assert forall|i: int| 0 <= i < bs.len() implies #[trigger] bs[i] == section_between(ls, lt, eq, gt, i) by {
        if i == 0 {
            assert(bs[0] == block_at(ls, m));
            if nb < n {
                assert(lt2[0] == nb);
            }
        } else {
            assert(bs[i] == blocks_from(ls, nb)[i - 1]);
            assert(lt[i] == lt2[i - 1] && eq[i] == eq2[i - 1] && gt[i] == gt2[i - 1]);
            if i + 1 < lt.len() {
                assert(lt[i + 1] == lt2[i]);
            }
            assert(section_between(ls, lt, eq, gt, i) == section_between(ls, lt2, eq2, gt2, i - 1));
        }
    }
}

/// Law: in a file whose markers come in order (`<<<<<<<`, `=======`,
/// `>>>>>>>`, again and again, at least once, none left open), parsing finds
/// conflicts, one section per marker block. Section `i` holds the lines
/// between the `i`-th opening and middle markers as ours, those between the
/// `i`-th middle and closing markers as theirs, and those from the closing
/// marker to the next block as what follows. The lines before the first
/// conflict followed by each section's ours, theirs and following lines are
/// exactly the file's lines that are not markers: none is lost, repeated or
/// moved.
pub proof fn law_parse_keeps_content(ls: Seq<Seq<char>>, p: ParsedConflicts)
    requires
        markers_nest(ls, 0, 0),
        exists|i: int| 0 <= i < ls.len() && marker_kind(#[trigger] ls[i]) == 1,
        parsed_from(ls, p),
    ensures
        scan_until(ls, 0, '<') < ls.len(),
        p.sections.len() == marks_from(ls, 0, 1).len(),
        marks_from(ls, 0, 2).len() == marks_from(ls, 0, 1).len(),
        marks_from(ls, 0, 3).len() == marks_from(ls, 0, 1).len(),
        forall|i: int|
            0 <= i < p.sections.len() ==> (#[trigger] p.sections[i]).model() == section_between(
                ls,
                marks_from(ls, 0, 1),
                marks_from(ls, 0, 2),
                marks_from(ls, 0, 3),
                i,
            ),
        p.prefix.deep_view() + section_lines(p.sections@.map_values(|s: ConflictSection| s.model()))
            == content_lines(ls),
{
    lemma_nest_scan(ls, 0, 0);
    let f = scan_until(ls, 0, '<');
    let w = choose|i: int| 0 <= i < ls.len() && marker_kind(#[trigger] ls[i]) == 1;
    if f >= ls.len() {
        assert(marker_kind(ls[w]) == 0);
    }
    lemma_blocks_keep_content(ls, f);
    lemma_blocks_at_marks(ls, f);
    lemma_marks_skip(ls, 0, f, 1);
    lemma_marks_skip(ls, 0, f, 2);
    lemma_marks_skip(ls, 0, f, 3);
    assert(p.sections@.map_values(|s: ConflictSection| s.model()) =~= blocks_from(ls, f));
    assert forall|k: int| 0 <= k < ls.take(f).len() implies marker_kind(#[trigger] ls.take(f)[k]) == 0 by {
        assert(ls.take(f)[k] == ls[k]);
    }
    lemma_content_plain(ls.take(f));
    assert(ls =~= ls.take(f) + ls.subrange(f, ls.len() as int));
    lemma_content_add(ls.take(f), ls.subrange(f, ls.len() as int));
}

/// Law: what a section is written back as, whatever else is in the file:
/// for ours, all of its ours lines in order; for theirs, all of its theirs
/// lines; for both, ours then theirs; while unresolved, none of them; and
/// then, in every case, the lines that follow it.
pub proof fn law_section_written_back(s: ConflictSection)
    ensures
        resolved_sections(seq![s]) == match s.resolution {
            ConflictResolution::Ours => s.ours.deep_view(),
            ConflictResolution::Theirs => s.theirs.deep_view(),
            ConflictResolution::Both => s.ours.deep_view() + s.theirs.deep_view(),
            ConflictResolution::Unresolved => Seq::empty(),
        } + s.suffix.deep_view(),
{
    assert(seq![s].drop_last() =~= Seq::<ConflictSection>::empty());
    assert(resolved_sections(Seq::<ConflictSection>::empty()) == Seq::<Seq<char>>::empty());
    assert(Seq::<Seq<char>>::empty() + picked_lines(s.model(), s.resolution) + s.model().2 =~= picked_lines(
        s.model(),
        s.resolution,
    ) + s.model().2);
}

/// Law: sections are written back one after another, each on its own:
/// writing two runs of sections gives the first run's lines, then the
/// second's.
pub proof fn law_sections_written_in_order(a: Seq<ConflictSection>, b: Seq<ConflictSection>)
    ensures
        resolved_sections(a + b) == resolved_sections(a) + resolved_sections(b),
    decreases b.len(),
{
    if b.len() == 0 {
        assert(a + b =~= a);
        assert(resolved_sections(a) + Seq::<Seq<char>>::empty() =~= resolved_sections(a));
    } else {
        law_sections_written_in_order(a, b.drop_last());
        assert((a + b).drop_last() =~= a + b.drop_last());
        assert((a + b).last() == b.last());
        let p = picked_lines(b.last().model(), b.last().resolution) + b.last().model().2;
        assert(resolved_sections(a) + resolved_sections(b.drop_last()) + p =~= resolved_sections(a) + (
        resolved_sections(b.drop_last()) + p));
        assert(resolved_sections(a + b.drop_last()) + picked_lines(b.last().model(), b.last().resolution)
            + b.last().model().2 =~= resolved_sections(a + b.drop_last()) + p);
        assert(resolved_sections(b.drop_last()) + picked_lines(b.last().model(), b.last().resolution)
            + b.last().model().2 =~= resolved_sections(b.drop_last()) + p);
    }
}

/// Law: in a file whose sections are all resolved as ours, the lines written
/// back are the lines before the first conflict, then each section's ours
/// lines and the lines that follow it, in order.
pub proof fn law_all_ours_written_back(cs: ConflictState, out: Seq<Seq<char>>, i: int)
    requires
        out == cs.prefix.deep_view() + resolved_sections(cs.sections@),
        forall|k: int| 0 <= k < cs.sections.len() ==> (#[trigger] cs.sections[k]).resolution
            == ConflictResolution::Ours,
        0 <= i < cs.sections.len(),
    ensures
        ({
            let before = cs.prefix.deep_view() + resolved_sections(cs.sections@.take(i));
            let s = cs.sections[i];
            &&& out.subrange(before.len() as int, before.len() + s.ours.len() + s.suffix.len())
                == s.ours.deep_view() + s.suffix.deep_view()
            &&& out.take(before.len() as int) == before
        }),
{
    let secs = cs.sections@;
    assert(secs =~= secs.take(i) + (seq![secs[i]] + secs.skip(i + 1)));
    law_sections_written_in_order(secs.take(i), seq![secs[i]] + secs.skip(i + 1));
    law_sections_written_in_order(seq![secs[i]], secs.skip(i + 1));
    law_section_written_back(secs[i]);
    let before = cs.prefix.deep_view() + resolved_sections(secs.take(i));
    let mid = secs[i].ours.deep_view() + secs[i].suffix.deep_view();
    assert(out =~= before + mid + resolved_sections(secs.skip(i + 1)));
    assert(out.subrange(before.len() as int, (before.len() + mid.len()) as int) =~= mid);
    assert(out.take(before.len() as int) =~= before);
}

} // verus!
