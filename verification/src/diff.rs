//! Side-by-side line diffs, hunks, and partial staging of hunks or lines.
use vstd::prelude::*;
use std::collections::BTreeSet;

use crate::text::{trim_newlines, trim_nl};

verus! {

broadcast use vstd::std_specs::btree::group_btree_axioms, vstd::laws_cmp::group_laws_cmp;

/// What a display row shows on one side.
#[derive(Debug, Clone, Copy, PartialEq, Eq, Structural)]
pub enum DiffLineKind {
    Equal,
    Added,
    Removed,
    Spacer,
}

/// One display row of one side of a diff.
#[derive(Debug, Clone)]
pub struct DiffLine {
    pub content: String,
    pub kind: DiffLineKind,
    pub hunk_index: Option<usize>,
}

/// A run of changed display rows, `display_start..display_end`.
#[derive(Debug, Clone, Copy, PartialEq, Eq)]
pub struct Hunk {
    pub display_start: usize,
    pub display_end: usize,  // exclusive
}

/// Whether a line change keeps, removes or adds a line.
#[derive(Debug, Clone, Copy, PartialEq, Eq, Structural)]
pub enum ChangeTag {
    Equal,
    Delete,
    Insert,
}

/// One line of a line diff, with its newline.
pub struct LineChange {
    pub tag: ChangeTag,
    pub value: String,
}

/// A line change as plain values.
pub type Change = (ChangeTag, Seq<char>);

/// A display row as plain values: content, kind, hunk number.
pub type RowModel = (Seq<char>, DiffLineKind, Option<int>);

impl DiffLine {
    pub open spec fn model(&self) -> RowModel {
        (
            self.content@,
            self.kind,
            match self.hunk_index {
                Some(k) => Some(k as int),
                None => None,
            },
        )
    }
}

impl Hunk {
    pub open spec fn model(&self) -> (int, int) {
        (self.display_start as int, self.display_end as int)
    }
}

pub open spec fn change_models(cs: Seq<LineChange>) -> Seq<Change> {
    cs.map_values(|c: LineChange| (c.tag, c.value@))
}

/// The line diff of `old` and `new` that `similar` computes (Myers, line
/// granularity): one change per line, in display order.
pub uninterp spec fn line_diff(old: Seq<char>, new: Seq<char>) -> Seq<Change>;

/// The old text read back from a diff: every line that is not an insertion.
pub open spec fn old_side(cs: Seq<Change>) -> Seq<char>
    decreases cs.len(),
{
    if cs.len() == 0 {
        Seq::empty()
    } else {
        old_side(cs.drop_last()) + if cs.last().0 == ChangeTag::Insert {
            Seq::empty()
        } else {
            cs.last().1
        }
    }
}

/// The new text read back from a diff: every line that is not a deletion.
pub open spec fn new_side(cs: Seq<Change>) -> Seq<char>
    decreases cs.len(),
{
    if cs.len() == 0 {
        Seq::empty()
    } else {
        new_side(cs.drop_last()) + if cs.last().0 == ChangeTag::Delete {
            Seq::empty()
        } else {
            cs.last().1
        }
    }
}

/// The length of the first line of `s`, its line break included: a line
/// ends at `"\r\n"`, at a lone `'\r'` or at `'\n'`, else with the text.
pub open spec fn first_line_len(s: Seq<char>) -> nat
    decreases s.len(),
{
    if s.len() == 0 {
        0
    } else if s[0] == '\n' {
        1
    } else if s[0] == '\r' {
        if s.len() > 1 && s[1] == '\n' {
            2
        } else {
            1
        }
    } else {
        1 + first_line_len(s.skip(1))
    }
}

/// A nonempty text's first line is nonempty and no longer than the text.
pub proof fn lemma_first_line_len(s: Seq<char>)
    ensures
        first_line_len(s) <= s.len(),
        s.len() > 0 ==> 1 <= first_line_len(s),
    decreases s.len(),
{
    if s.len() > 0 {
        lemma_first_line_len(s.skip(1));
        assert(s.skip(1).len() == s.len() - 1);
    }
}

/// The lines of `s`, each with its line break.
pub open spec fn split_lines(s: Seq<char>) -> Seq<Seq<char>>
    decreases s.len(),
{
    if s.len() == 0 {
        Seq::empty()
    } else {
        proof {
            lemma_first_line_len(s);
        }
        seq![s.take(first_line_len(s) as int)] + split_lines(s.skip(first_line_len(s) as int))
    }
}

/// The lines of a diff that are not insertions: the old text's lines.
pub open spec fn old_lines(cs: Seq<Change>) -> Seq<Seq<char>>
    decreases cs.len(),
{
    if cs.len() == 0 {
        Seq::empty()
    } else {
        old_lines(cs.drop_last()) + if cs.last().0 == ChangeTag::Insert {
            Seq::empty()
        } else {
            seq![cs.last().1]
        }
    }
}

/// The lines of a diff that are not deletions: the new text's lines.
pub open spec fn new_lines(cs: Seq<Change>) -> Seq<Seq<char>>
    decreases cs.len(),
{
    if cs.len() == 0 {
        Seq::empty()
    } else {
        new_lines(cs.drop_last()) + if cs.last().0 == ChangeTag::Delete {
            Seq::empty()
        } else {
            seq![cs.last().1]
        }
    }
}

/// `similar::TextDiff::from_lines(old, new).iter_all_changes()`: the line
/// changes, each with its tag and its line (line break included). Stated of
/// it, as similar's source shows: the result is `line_diff` of the two
/// texts; the lines that are not insertions are the lines of `old` in order,
/// and those that are not deletions the lines of `new` (it splits lines at
/// `"\r\n"`, `'\r'` and `'\n'`); joined they give back the texts; and two
/// equal texts give only unchanged lines (the common prefix is taken first).
/// Nothing more is stated of which lines the algorithm pairs up.
#[verifier::external_body]
fn diff_lines(old: &str, new: &str) -> (changes: Vec<LineChange>)
    ensures
        change_models(changes@) == line_diff(old@, new@),
        old_lines(change_models(changes@)) == split_lines(old@),
        new_lines(change_models(changes@)) == split_lines(new@),
        old_side(change_models(changes@)) == old@,
        new_side(change_models(changes@)) == new@,
        old@ == new@ ==> forall|k: int|
            0 <= k < changes@.len() ==> (#[trigger] changes@[k]).tag == ChangeTag::Equal,
{
    similar::TextDiff::from_lines(old, new).iter_all_changes().map(
        |c| LineChange {
            tag: match c.tag() {
                similar::ChangeTag::Equal => ChangeTag::Equal,
                similar::ChangeTag::Delete => ChangeTag::Delete,
                similar::ChangeTag::Insert => ChangeTag::Insert,
            },
            value: c.value().to_string(),
        },
    ).collect()
}

/// Side-by-side state after some changes: left rows, right rows, closed
/// hunks, start of the open hunk, number of the current hunk.
pub type DiffAcc = (Seq<RowModel>, Seq<RowModel>, Seq<(int, int)>, Option<int>, int);

pub open spec fn diff_acc(cs: Seq<Change>) -> DiffAcc
    decreases cs.len(),
{
    if cs.len() == 0 {
        (Seq::empty(), Seq::empty(), Seq::empty(), None, 0)
    } else {
        let (l, r, h, open, k) = diff_acc(cs.drop_last());
        let c = cs.last();
        let row = l.len() as int;
        let text = trim_nl(c.1);
        match c.0 {
            ChangeTag::Equal => {
                let (h2, k2) = match open {
                    Some(s) => (h.push((s, row)), k + 1),
                    None => (h, k),
                };
                (
                    l.push((text, DiffLineKind::Equal, None)),
                    r.push((text, DiffLineKind::Equal, None)),
                    h2,
                    None,
                    k2,
                )
            },
            ChangeTag::Delete => (
                l.push((text, DiffLineKind::Removed, Some(k))),
                r.push((Seq::empty(), DiffLineKind::Spacer, Some(k))),
                h,
                if open is None {
                    Some(row)
                } else {
                    open
                },
                k,
            ),
            ChangeTag::Insert => (
                l.push((Seq::empty(), DiffLineKind::Spacer, Some(k))),
                r.push((text, DiffLineKind::Added, Some(k))),
                h,
                if open is None {
                    Some(row)
                } else {
                    open
                },
                k,
            ),
        }
    }
}

/// The hunks of a diff: the closed ones and the open one, if any.
pub open spec fn diff_hunks(cs: Seq<Change>) -> Seq<(int, int)> {
    let (l, _r, h, open, _k) = diff_acc(cs);
    match open {
        Some(s) => h.push((s, l.len() as int)),
        None => h,
    }
}

/// Facts that every step of `diff_acc` keeps.
pub open spec fn acc_ok(cs: Seq<Change>) -> bool {
    let (l, r, h, open, k) = diff_acc(cs);
    &&& l.len() == cs.len() && r.len() == cs.len()
    &&& 0 <= k <= cs.len()
    &&& h.len() == k
    &&& forall|j: int| 0 <= j < h.len() ==> 0 <= (#[trigger] h[j]).0 < h[j].1 <= l.len()
    &&& forall|j: int| 0 < j < h.len() ==> h[j - 1].1 < (#[trigger] h[j]).0
    &&& open matches Some(s) ==> (0 <= s < l.len() && (h.len() > 0 ==> h.last().1 < s))
    &&& h.len() > 0 ==> h.last().1 < l.len()
    &&& forall|i: int|
        0 <= i < l.len() ==> ((#[trigger] l[i]).1 == DiffLineKind::Equal <==> l[i].2 is None)
    &&& forall|i: int|
        0 <= i < r.len() ==> ((#[trigger] r[i]).1 == DiffLineKind::Equal <==> r[i].2 is None)
    &&& forall|i: int|
        0 <= i < l.len() && l[i].2 is Some ==> 0 <= (#[trigger] l[i]).2->0 && (l[i].2->0 < k || (
        l[i].2->0 == k && open is Some))
}

#[verifier::spinoff_prover]
#[verifier::rlimit(40)]
pub proof fn lemma_acc_ok(cs: Seq<Change>)
    ensures
        acc_ok(cs),
    decreases cs.len(),
{
    if cs.len() > 0 {
        let p = cs.drop_last();
        lemma_acc_ok(p);
        let (l, r, h, open, k) = diff_acc(p);
        let (l2, r2, h2, open2, k2) = diff_acc(cs);
        assert(l2.len() == l.len() + 1 && r2.len() == r.len() + 1);
        assert forall|i: int| 0 <= i < l.len() implies l2[i] == l[i] && r2[i] == r[i] by {}
        assert forall|j: int| 0 <= j < h.len() implies h2[j] == h[j] by {}
        assert forall|i: int| 0 <= i < l2.len() implies ((#[trigger] l2[i]).1
            == DiffLineKind::Equal <==> l2[i].2 is None) by {
            if i < l.len() {
                assert(l2[i] == l[i]);
            }
        }
        assert forall|i: int| 0 <= i < r2.len() implies ((#[trigger] r2[i]).1
            == DiffLineKind::Equal <==> r2[i].2 is None) by {
            if i < r.len() {
                assert(r2[i] == r[i]);
            }
        }
        assert forall|i: int| 0 <= i < l2.len() && l2[i].2 is Some implies 0 <= (
        #[trigger] l2[i]).2->0 && (l2[i].2->0 < k2 || (l2[i].2->0 == k2 && open2 is Some)) by {
            if i < l.len() {
                assert(l2[i] == l[i]);
            }
        }
        assert forall|j: int| 0 <= j < h2.len() implies 0 <= (#[trigger] h2[j]).0 < h2[j].1
            <= l2.len() by {
            if j < h.len() {
                assert(h2[j] == h[j]);
            }
        }
        assert forall|j: int| 0 < j < h2.len() implies h2[j - 1].1 < (#[trigger] h2[j]).0 by {
            if j < h.len() {
                assert(h2[j] == h[j]);
            }
            assert(h2[j - 1] == h[j - 1]);
        }
    }
}

/// How rows and hunks of a diff relate: a row has no hunk number exactly
/// when its change is unchanged; a row has hunk number `j` exactly when it
/// lies in hunk `j`'s range; every hunk ends by the last row.
pub open spec fn rows_in_hunks(cs: Seq<Change>) -> bool {
    let l = diff_acc(cs).0;
    let hs = diff_hunks(cs);
    &&& forall|i: int| 0 <= i < l.len() ==> ((#[trigger] l[i]).2 is None <==> cs[i].0 == ChangeTag::Equal)
    &&& forall|i: int|
        0 <= i < l.len() && (#[trigger] l[i]).2 is Some ==> 0 <= l[i].2->0 < hs.len() && hs[l[i].2->0].0 <= i
            < hs[l[i].2->0].1
    &&& forall|j: int, i: int|
        #![trigger hs[j], l[i]]
        0 <= j < hs.len() && hs[j].0 <= i < hs[j].1 ==> l[i].2 == Some(j)
    &&& forall|j: int| 0 <= j < hs.len() ==> 0 <= (#[trigger] hs[j]).0 < hs[j].1 <= l.len()
}

#[verifier::spinoff_prover]
#[verifier::rlimit(60)]
proof fn lemma_rows_in_hunks(cs: Seq<Change>)
    ensures
        rows_in_hunks(cs),
    decreases cs.len(),
{
    lemma_acc_ok(cs);
    if cs.len() > 0 {
        let p = cs.drop_last();
        lemma_rows_in_hunks(p);
        lemma_acc_ok(p);
        let (l, r, h, open, k) = diff_acc(p);
        let (l2, r2, h2, open2, k2) = diff_acc(cs);
        let hs = diff_hunks(p);
        let hs2 = diff_hunks(cs);
        let row = l.len() as int;
        assert(l2.len() == row + 1);
        assert forall|i: int| 0 <= i < row implies l2[i] == l[i] && cs[i] == p[i] by {}
        if cs.last().0 == ChangeTag::Equal {
            assert(hs2 =~= hs);
            assert(l2[row].2 is None);
            assert forall|i: int| 0 <= i < l2.len() implies ((#[trigger] l2[i]).2 is None <==> cs[i].0
                == ChangeTag::Equal) by {
                if i < row {
                    assert(l2[i] == l[i]);
                }
            }
            assert forall|i: int|
                0 <= i < l2.len() && (#[trigger] l2[i]).2 is Some implies 0 <= l2[i].2->0 < hs2.len()
                && hs2[l2[i].2->0].0 <= i < hs2[l2[i].2->0].1 by {
                assert(l2[i] == l[i]);
            }
            assert forall|j: int, i: int|
                #![trigger hs2[j], l2[i]]
                0 <= j < hs2.len() && hs2[j].0 <= i < hs2[j].1 implies l2[i].2 == Some(j) by {
                assert(hs2[j] == hs[j]);
                assert(hs[j].1 <= row);
                assert(l2[i] == l[i]);
            }
        } else {
            let s2 = match open {
                Some(s) => s,
                None => row,
            };
            assert(h.len() == k);
            assert(hs2 =~= h.push((s2, row + 1)));
            assert(l2[row].2 == Some(k));
            assert forall|i: int| 0 <= i < l2.len() implies ((#[trigger] l2[i]).2 is None <==> cs[i].0
                == ChangeTag::Equal) by {
                if i < row {
                    assert(l2[i] == l[i]);
                }
            }
            assert forall|i: int|
                0 <= i < l2.len() && (#[trigger] l2[i]).2 is Some implies 0 <= l2[i].2->0 < hs2.len()
                && hs2[l2[i].2->0].0 <= i < hs2[l2[i].2->0].1 by {
                if i < row {
                    assert(l2[i] == l[i]);
                    let j = l[i].2->0;
                    assert(0 <= j < hs.len() && hs[j].0 <= i < hs[j].1);
                    if j < h.len() {
                        assert(hs[j] == h[j]);
                    } else {
                        assert(open is Some);
                        assert(hs[j] == (s2, row));
                    }
                }
            }
            assert forall|j: int, i: int|
                #![trigger hs2[j], l2[i]]
                0 <= j < hs2.len() && hs2[j].0 <= i < hs2[j].1 implies l2[i].2 == Some(j) by {
                if j < h.len() {
                    assert(hs2[j] == h[j]);
                    assert(hs[j] == h[j]);
                    assert(l2[i] == l[i]);
                } else if i < row {
                    assert(open is Some);
                    assert(hs[j] == (s2, row));
                    assert(l2[i] == l[i]);
                }
            }
            assert forall|j: int| 0 <= j < hs2.len() implies 0 <= (#[trigger] hs2[j]).0 < hs2[j].1
                <= l2.len() by {
                if j < h.len() {
                    assert(hs2[j] == h[j]);
                }
            }
        }
    }
}

/// The contents of the rows that are not gaps, in order.
pub open spec fn kept_contents(rows: Seq<RowModel>) -> Seq<Seq<char>>
    decreases rows.len(),
{
    if rows.len() == 0 {
        Seq::empty()
    } else {
        kept_contents(rows.drop_last()) + if rows.last().1 == DiffLineKind::Spacer {
            Seq::empty()
        } else {
            seq![rows.last().0]
        }
    }
}

/// Lines without their trailing newlines.
pub open spec fn trimmed(ls: Seq<Seq<char>>) -> Seq<Seq<char>> {
    ls.map_values(|x: Seq<char>| trim_nl(x))
}

proof fn lemma_kept_contents(cs: Seq<Change>)
    ensures
        kept_contents(diff_acc(cs).0) == trimmed(old_lines(cs)),
        kept_contents(diff_acc(cs).1) == trimmed(new_lines(cs)),
    decreases cs.len(),
{
    if cs.len() > 0 {
        let p = cs.drop_last();
        lemma_kept_contents(p);
        let c = cs.last();
        assert(diff_acc(cs).0.drop_last() =~= diff_acc(p).0);
        assert(diff_acc(cs).1.drop_last() =~= diff_acc(p).1);
        assert(trimmed(old_lines(p) + seq![c.1]) =~= trimmed(old_lines(p)) + seq![trim_nl(c.1)]);
        assert(trimmed(new_lines(p) + seq![c.1]) =~= trimmed(new_lines(p)) + seq![trim_nl(c.1)]);
        assert(old_lines(p) + Seq::<Seq<char>>::empty() =~= old_lines(p));
        assert(new_lines(p) + Seq::<Seq<char>>::empty() =~= new_lines(p));
        assert(trimmed(old_lines(p)) + Seq::<Seq<char>>::empty() =~= trimmed(old_lines(p)));
        assert(trimmed(new_lines(p)) + Seq::<Seq<char>>::empty() =~= trimmed(new_lines(p)));
    }
}

/// A diff with no change: every row on both sides is unchanged and the
/// same, with no hunk.
proof fn lemma_all_equal(cs: Seq<Change>)
    requires
        forall|k: int| 0 <= k < cs.len() ==> (#[trigger] cs[k]).0 == ChangeTag::Equal,
    ensures
        diff_acc(cs).2.len() == 0,
        diff_acc(cs).3 is None,
        diff_hunks(cs).len() == 0,
        diff_acc(cs).0 == diff_acc(cs).1,
        forall|i: int|
            0 <= i < diff_acc(cs).0.len() ==> (#[trigger] diff_acc(cs).0[i]).1 == DiffLineKind::Equal
                && diff_acc(cs).0[i].2 is None,
    decreases cs.len(),
{
    lemma_acc_ok(cs);
    if cs.len() > 0 {
        let p = cs.drop_last();
        assert forall|k: int| 0 <= k < p.len() implies (#[trigger] p[k]).0 == ChangeTag::Equal by {
            assert(p[k] == cs[k]);
        }
        lemma_all_equal(p);
        assert(cs.last() == cs[cs.len() - 1]);
        let l2 = diff_acc(cs).0;
        let l = diff_acc(p).0;
        assert forall|i: int| 0 <= i < l2.len() implies (#[trigger] l2[i]).1 == DiffLineKind::Equal
            && l2[i].2 is None by {
            if i < l.len() {
                assert(l2[i] == l[i]);
            }
        }
    }
}

proof fn lemma_changed_rows(rows: Seq<RowModel>, a: int, b: int)
    requires
        0 <= a,
        b <= rows.len(),
        b <= usize::MAX + 1,
    ensures
        forall|u: usize| #[trigger] changed_rows(rows, a, b).contains(u) <==> (a <= u < b && rows[u as int].2 is Some),
    decreases b - a,
{
    if b > a {
        lemma_changed_rows(rows, a, b - 1);
        let prev = changed_rows(rows, a, b - 1);
        let cur = changed_rows(rows, a, b);
        assert forall|u: usize| #[trigger] cur.contains(u) <==> (a <= u < b && rows[u as int].2 is Some) by {
            if rows[b - 1].2 is Some {
                assert(cur =~= prev.push((b - 1) as usize));
                if cur.contains(u) && !prev.contains(u) {
                    let w = choose|w: int| 0 <= w < cur.len() && cur[w] == u;
                    assert(w == prev.len());
                }
                if u == b - 1 {
                    assert(cur[prev.len() as int] == u);
                }
                if prev.contains(u) {
                    let w = choose|w: int| 0 <= w < prev.len() && prev[w] == u;
                    assert(cur[w] == u);
                }
            } else {
                assert(cur =~= prev);
            }
        }
    } else {
        assert forall|u: usize| #[trigger] changed_rows(rows, a, b).contains(u) <==> (a <= u < b
            && rows[u as int].2 is Some) by {
            if changed_rows(rows, a, b).contains(u) {
                let w = choose|w: int| 0 <= w < changed_rows(rows, a, b).len() && changed_rows(rows, a, b)[w] == u;
            }
        }
    }
}

/// Law: where a diff has a single hunk, staging that hunk gives the new text
/// read back from the diff.
pub proof fn law_single_hunk(cs: Seq<Change>)
    requires
        diff_hunks(cs).len() == 1,
    ensures
        hunk_result(cs, 0) == new_side(cs),
{
    lemma_hunk_is_lines_prefix(cs, 0, cs.len() as int);
    assert(cs.take(cs.len() as int) =~= cs);
    lemma_rows_in_hunks(cs);
    lemma_acc_ok(cs);
    let l = diff_acc(cs).0;
    let set = rows_of_hunk(l, 0);
    assert forall|r: int| 0 <= r < cs.len() && cs[r].0 != ChangeTag::Equal implies set.contains(r) by {
        assert(l[r].2 is Some);
    }
    lemma_lines_all(cs, set);
}

/// Law: staging hunk `k` gives the same text as staging, line by line, the
/// rows that `changed_rows_in_hunk` lists for that hunk.
pub proof fn law_hunk_is_its_range(cs: Seq<Change>, k: int, sel: Set<usize>)
    requires
        0 <= k < diff_hunks(cs).len(),
        cs.len() <= usize::MAX,
        forall|u: usize|
            sel.contains(u) <==> changed_rows(diff_acc(cs).0, diff_hunks(cs)[k].0, diff_hunks(cs)[k].1).contains(u),
    ensures
        hunk_result(cs, k) == lines_result(cs, row_set(sel)),
{
    lemma_hunk_is_lines_prefix(cs, k, cs.len() as int);
    assert(cs.take(cs.len() as int) =~= cs);
    lemma_rows_in_hunks(cs);
    lemma_acc_ok(cs);
    let l = diff_acc(cs).0;
    let hs = diff_hunks(cs);
    lemma_changed_rows(l, hs[k].0, hs[k].1);
    assert forall|r: int| #[trigger] row_set(sel).contains(r) <==> rows_of_hunk(l, k).contains(r) by {
        if 0 <= r < l.len() && l[r].2 == Some(k) {
            assert(changed_rows(l, hs[k].0, hs[k].1).contains(r as usize));
        }
        if row_set(sel).contains(r) {
            assert(changed_rows(l, hs[k].0, hs[k].1).contains(r as usize));
            assert(hs[k].0 <= r < hs[k].1);
            assert(l[r].2 == Some(k));
        }
    }
    assert(row_set(sel) =~= rows_of_hunk(l, k));
}

/// The side-by-side rows built so far match `acc`.
pub open spec fn rows_match(
    left: Seq<DiffLine>,
    right: Seq<DiffLine>,
    hunks: Seq<Hunk>,
    open: Option<usize>,
    k: usize,
    acc: DiffAcc,
) -> bool {
    &&& left.map_values(|d: DiffLine| d.model()) == acc.0
    &&& right.map_values(|d: DiffLine| d.model()) == acc.1
    &&& hunks.map_values(|h: Hunk| h.model()) == acc.2
    &&& match open {
        Some(s) => acc.3 == Some(s as int),
        None => acc.3 is None,
    }
    &&& acc.4 == k
}

fn push_change(
    change: &LineChange,
    left_lines: &mut Vec<DiffLine>,
    right_lines: &mut Vec<DiffLine>,
    hunks: &mut Vec<Hunk>,
    current_hunk_start: &mut Option<usize>,
    hunk_index: &mut usize,
    Ghost(cs): Ghost<Seq<Change>>,
)
    requires
        rows_match(
            old(left_lines)@,
            old(right_lines)@,
            old(hunks)@,
            *old(current_hunk_start),
            *old(hunk_index),
            diff_acc(cs),
        ),
        acc_ok(cs),
        cs.len() < usize::MAX,
    ensures
        rows_match(
            final(left_lines)@,
            final(right_lines)@,
            final(hunks)@,
            *final(current_hunk_start),
            *final(hunk_index),
            diff_acc(cs.push((change.tag, change.value@))),
        ),
{
    let ghost c = (change.tag, change.value@);
    proof {
        assert(cs.push(c).drop_last() =~= cs);
    }
    let ghost ph = hunks@.map_values(|h: Hunk| h.model());
    let ghost pl = left_lines@.map_values(|d: DiffLine| d.model());
    let ghost pr = right_lines@.map_values(|d: DiffLine| d.model());
    let text = trim_newlines(change.value.as_str());
    let display_row = left_lines.len();
    match change.tag {
        ChangeTag::Equal => {
            if let Some(start) = *current_hunk_start {
                hunks.push(Hunk { display_start: start, display_end: display_row });
                *hunk_index = *hunk_index + 1;
                *current_hunk_start = None;
                assert(hunks@.map_values(|h: Hunk| h.model()) =~= ph.push(
                    (start as int, display_row as int),
                ));
            } else {
                assert(hunks@.map_values(|h: Hunk| h.model()) =~= ph);
            }
            let text2 = text.clone();
            left_lines.push(DiffLine { content: text, kind: DiffLineKind::Equal, hunk_index: None });
            right_lines.push(
                DiffLine { content: text2, kind: DiffLineKind::Equal, hunk_index: None },
            );
        },
        ChangeTag::Delete => {
            if current_hunk_start.is_none() {
                *current_hunk_start = Some(display_row);
            }
            left_lines.push(
                DiffLine {
                    content: text,
                    kind: DiffLineKind::Removed,
                    hunk_index: Some(*hunk_index),
                },
            );
            right_lines.push(
                DiffLine {
                    content: String::new(),
                    kind: DiffLineKind::Spacer,
                    hunk_index: Some(*hunk_index),
                },
            );
            assert(hunks@.map_values(|h: Hunk| h.model()) =~= ph);
        },
        ChangeTag::Insert => {
            if current_hunk_start.is_none() {
                *current_hunk_start = Some(display_row);
            }
            left_lines.push(
                DiffLine {
                    content: String::new(),
                    kind: DiffLineKind::Spacer,
                    hunk_index: Some(*hunk_index),
                },
            );
            right_lines.push(
                DiffLine {
                    content: text,
                    kind: DiffLineKind::Added,
                    hunk_index: Some(*hunk_index),
                },
            );
            assert(hunks@.map_values(|h: Hunk| h.model()) =~= ph);
        },
    }
    let ghost next = diff_acc(cs.push(c));
    assert(left_lines@.map_values(|d: DiffLine| d.model()) =~= next.0);
    assert(right_lines@.map_values(|d: DiffLine| d.model()) =~= next.1);
}

/// What the side-by-side rows and hunks of the changes `cs` are: the rows'
/// and hunks' models follow `diff_acc`, both sides have a row per change,
/// hunks are nonempty, in order and apart, a row has no hunk number exactly
/// when it is unchanged, a row has hunk number `k` exactly when it lies in
/// hunk `k`'s range, the contents of the rows that are not gaps are the
/// trimmed lines of each side, and a diff without changes has only
/// unchanged, equal rows and no hunk.
pub open spec fn side_by_side(left: Seq<DiffLine>, right: Seq<DiffLine>, hunks: Seq<Hunk>, cs: Seq<Change>) -> bool {
    &&& left.map_values(|d: DiffLine| d.model()) == diff_acc(cs).0
    &&& right.map_values(|d: DiffLine| d.model()) == diff_acc(cs).1
    &&& hunks.map_values(|h: Hunk| h.model()) == diff_hunks(cs)
    &&& left.len() == right.len() == cs.len()
    &&& forall|j: int|
        0 <= j < hunks.len() ==> (#[trigger] hunks[j]).display_start < hunks[j].display_end <= left.len()
    &&& forall|j: int| 0 < j < hunks.len() ==> hunks[j - 1].display_end < (#[trigger] hunks[j]).display_start
    &&& forall|i: int|
        0 <= i < left.len() ==> ((#[trigger] left[i]).kind == DiffLineKind::Equal <==> left[i].hunk_index is None)
    &&& forall|i: int|
        0 <= i < right.len() ==> ((#[trigger] right[i]).kind == DiffLineKind::Equal <==> right[i].hunk_index is None)
    &&& forall|i: int|
        0 <= i < left.len() && (#[trigger] left[i]).hunk_index is Some ==> left[i].hunk_index->0 < hunks.len()
            && hunks[left[i].hunk_index->0 as int].display_start <= i < hunks[left[i].hunk_index->0 as int].display_end
    &&& forall|k: int, i: int|
        #![trigger hunks[k], left[i]]
        0 <= k < hunks.len() && hunks[k].display_start <= i < hunks[k].display_end ==> left[i].hunk_index == Some(
            k as usize,
        )
    &&& kept_contents(left.map_values(|d: DiffLine| d.model())) == trimmed(old_lines(cs))
    &&& kept_contents(right.map_values(|d: DiffLine| d.model())) == trimmed(new_lines(cs))
    &&& (forall|k: int| 0 <= k < cs.len() ==> (#[trigger] cs[k]).0 == ChangeTag::Equal) ==> {
        &&& hunks.len() == 0
        &&& forall|i: int|
            0 <= i < left.len() ==> (#[trigger] left[i]).kind == DiffLineKind::Equal && left[i].hunk_index is None
                && right[i].kind == DiffLineKind::Equal && right[i].hunk_index is None && left[i].content@
                == right[i].content@
    }
}

/// Side-by-side rows and hunks of a list of line changes: one row per
/// change on each side, a gap across from each added or removed line, and a
/// hunk for each run of changed rows.
pub fn diff_from_changes(changes: &Vec<LineChange>) -> (res: (Vec<DiffLine>, Vec<DiffLine>, Vec<Hunk>))
    ensures
        side_by_side(res.0@, res.1@, res.2@, change_models(changes@)),
{
    let ghost cs = change_models(changes@);
    let mut left_lines: Vec<DiffLine> = Vec::new();
    let mut right_lines: Vec<DiffLine> = Vec::new();
    let mut hunks: Vec<Hunk> = Vec::new();
    let mut current_hunk_start: Option<usize> = None;
    let mut hunk_index: usize = 0;
    let mut i: usize = 0;
    proof {
        assert(cs.take(0) =~= Seq::<Change>::empty());
        assert(left_lines@.map_values(|d: DiffLine| d.model()) =~= Seq::<RowModel>::empty());
        assert(right_lines@.map_values(|d: DiffLine| d.model()) =~= Seq::<RowModel>::empty());
        assert(hunks@.map_values(|h: Hunk| h.model()) =~= Seq::<(int, int)>::empty());
    }
    while i < changes.len()
        invariant
            i <= changes.len(),
            cs == change_models(changes@),
            cs.len() == changes.len(),
            rows_match(
                left_lines@,
                right_lines@,
                hunks@,
                current_hunk_start,
                hunk_index,
                diff_acc(cs.take(i as int)),
            ),
        decreases changes.len() - i,
    {
        proof {
            lemma_acc_ok(cs.take(i as int));
            assert(cs.take(i + 1) =~= cs.take(i as int).push(cs[i as int]));
        }
        push_change(
            &changes[i],
            &mut left_lines,
            &mut right_lines,
            &mut hunks,
            &mut current_hunk_start,
            &mut hunk_index,
            Ghost(cs.take(i as int)),
        );
        i = i + 1;
    }
    proof {
        assert(cs.take(changes.len() as int) =~= cs);
        lemma_acc_ok(cs);
    }
    let ghost ph = hunks@.map_values(|h: Hunk| h.model());
    if let Some(start) = current_hunk_start {
        hunks.push(Hunk { display_start: start, display_end: left_lines.len() });
        assert(hunks@.map_values(|h: Hunk| h.model()) =~= ph.push(
            (start as int, left_lines.len() as int),
        ));
    }
    let ghost lm = left_lines@.map_values(|d: DiffLine| d.model());
    let ghost rm = right_lines@.map_values(|d: DiffLine| d.model());
    let ghost hm = hunks@.map_values(|h: Hunk| h.model());
    assert forall|j: int| 0 <= j < hunks.len() implies (#[trigger] hunks[j]).display_start
        < hunks[j].display_end <= left_lines.len() by {
        assert(hm[j] == hunks[j].model());
    }
    assert forall|j: int| 0 < j < hunks.len() implies hunks[j - 1].display_end < (
    #[trigger] hunks[j]).display_start by {
        assert(hm[j] == hunks[j].model());
        assert(hm[j - 1] == hunks[j - 1].model());
    }
    assert forall|i: int| 0 <= i < left_lines.len() implies ((#[trigger] left_lines[i]).kind
        == DiffLineKind::Equal <==> left_lines[i].hunk_index is None) by {
        assert(lm[i] == left_lines[i].model());
    }
    assert forall|i: int| 0 <= i < right_lines.len() implies ((#[trigger] right_lines[i]).kind
        == DiffLineKind::Equal <==> right_lines[i].hunk_index is None) by {
        assert(rm[i] == right_lines[i].model());
    }
    assert forall|i: int| 0 <= i < left_lines.len() && left_lines[i].hunk_index is Some implies (
    #[trigger] left_lines[i]).hunk_index->0 < hunks.len() by {
        assert(lm[i] == left_lines[i].model());
    }
    proof {
        lemma_rows_in_hunks(cs);
        lemma_kept_contents(cs);
        let l = diff_acc(cs).0;
        let hs = diff_hunks(cs);
        assert forall|i: int|
            0 <= i < left_lines.len() && (#[trigger] left_lines[i]).hunk_index is Some implies left_lines[i].hunk_index->0
            < hunks.len() && hunks[left_lines[i].hunk_index->0 as int].display_start <= i
            < hunks[left_lines[i].hunk_index->0 as int].display_end by {
            assert(lm[i] == left_lines[i].model());
            let j = left_lines[i].hunk_index->0 as int;
            assert(l[i].2 == Some(j));
            assert(hm[j] == hunks[j].model());
        }
        assert forall|k: int, i: int|
            #![trigger hunks[k], left_lines[i]]
            0 <= k < hunks.len() && hunks[k].display_start <= i < hunks[k].display_end implies left_lines[i].hunk_index
            == Some(k as usize) by {
            assert(hm[k] == hunks[k].model());
            assert(hs[k].0 <= i < hs[k].1);
            assert(l[i].2 == Some(k));
            assert(lm[i] == left_lines[i].model());
        }
        if forall|k: int| 0 <= k < cs.len() ==> (#[trigger] cs[k]).0 == ChangeTag::Equal {
            lemma_all_equal(cs);
            assert forall|i: int| 0 <= i < left_lines.len() implies (#[trigger] left_lines[i]).kind
                == DiffLineKind::Equal && left_lines[i].hunk_index is None && right_lines[i].kind == DiffLineKind::Equal
                && right_lines[i].hunk_index is None && left_lines[i].content@ == right_lines[i].content@ by {
                assert(lm[i] == left_lines[i].model());
                assert(rm[i] == right_lines[i].model());
            }
        }
    }
    (left_lines, right_lines, hunks)
}

/// Compute side-by-side diff lines and hunks: the line diff of the two
/// texts laid out side by side. The rows that are not gaps hold the lines of
/// `old` on the left and those of `new` on the right, each once and in
/// order; equal texts give only unchanged rows and no hunk.
pub fn compute_diff(old: &str, new: &str) -> (res: (Vec<DiffLine>, Vec<DiffLine>, Vec<Hunk>))
    ensures
        side_by_side(res.0@, res.1@, res.2@, line_diff(old@, new@)),
        kept_contents(res.0@.map_values(|d: DiffLine| d.model())) == trimmed(split_lines(old@)),
        kept_contents(res.1@.map_values(|d: DiffLine| d.model())) == trimmed(split_lines(new@)),
        old@ == new@ ==> res.2.len() == 0 && forall|i: int|
            0 <= i < res.0.len() ==> (#[trigger] res.0[i]).kind == DiffLineKind::Equal && res.0[i].hunk_index is None
                && res.1[i].kind == DiffLineKind::Equal && res.1[i].hunk_index is None && res.0[i].content@
                == res.1[i].content@,
{
    let changes = diff_lines(old, new);
    proof {
        if old@ == new@ {
            assert forall|k: int| 0 <= k < change_models(changes@).len() implies (#[trigger] change_models(
                changes@,
            )[k]).0 == ChangeTag::Equal by {
                assert(changes@[k].tag == ChangeTag::Equal);
            }
        }
    }
    diff_from_changes(&changes)
}



/// Staging one hunk, reading the changes from the left: the text so far,
/// the number of the hunk being read, and whether a change run is open.
pub open spec fn hunk_acc(cs: Seq<Change>, sel: int) -> (Seq<char>, int, bool)
    decreases cs.len(),
{
    if cs.len() == 0 {
        (Seq::empty(), 0, false)
    } else {
        let (res, cur, in_change) = hunk_acc(cs.drop_last(), sel);
        let c = cs.last();
        match c.0 {
            ChangeTag::Equal => (
                res + c.1,
                if in_change {
                    cur + 1
                } else {
                    cur
                },
                false,
            ),
            ChangeTag::Delete => (
                if cur != sel {
                    res + c.1
                } else {
                    res
                },
                cur,
                true,
            ),
            ChangeTag::Insert => (
                if cur == sel {
                    res + c.1
                } else {
                    res
                },
                cur,
                true,
            ),
        }
    }
}

/// The old text with hunk `sel` of the diff applied.
pub open spec fn hunk_result(cs: Seq<Change>, sel: int) -> Seq<char> {
    hunk_acc(cs, sel).0
}

/// A set of display rows as integers.
pub open spec fn row_set(sel: Set<usize>) -> Set<int> {
    Set::new(|r: int| 0 <= r <= usize::MAX && sel.contains(r as usize))
}

/// The old text with the changes at the display rows in `sel` applied:
/// a selected deletion drops its line, a selected insertion adds its line.
pub open spec fn lines_result(cs: Seq<Change>, sel: Set<int>) -> Seq<char>
    decreases cs.len(),
{
    if cs.len() == 0 {
        Seq::empty()
    } else {
        let row = cs.len() - 1;
        let c = cs.last();
        lines_result(cs.drop_last(), sel) + match c.0 {
            ChangeTag::Equal => c.1,
            ChangeTag::Delete => if sel.contains(row) {
                Seq::empty()
            } else {
                c.1
            },
            ChangeTag::Insert => if sel.contains(row) {
                c.1
            } else {
                Seq::empty()
            },
        }
    }
}

/// The display rows of `rows` whose hunk number is `k`.
pub open spec fn rows_of_hunk(rows: Seq<RowModel>, k: int) -> Set<int> {
    Set::new(|r: int| 0 <= r < rows.len() && rows[r].2 == Some(k))
}

proof fn lemma_hunk_acc_tracks(cs: Seq<Change>, sel: int)
    ensures
        hunk_acc(cs, sel).1 == diff_acc(cs).4,
        hunk_acc(cs, sel).2 == (diff_acc(cs).3 is Some),
    decreases cs.len(),
{
    if cs.len() > 0 {
        lemma_hunk_acc_tracks(cs.drop_last(), sel);
    }
}

proof fn lemma_hunks_grow(cs: Seq<Change>)
    requires
        cs.len() > 0,
    ensures
        diff_hunks(cs.drop_last()).len() <= diff_hunks(cs).len(),
        diff_hunks(cs).len() == diff_acc(cs).4 + if diff_acc(cs).3 is Some {
            1int
        } else {
            0int
        },
        cs.last().0 != ChangeTag::Equal ==> diff_hunks(cs).len() == diff_acc(cs.drop_last()).4 + 1,
{
    lemma_acc_ok(cs);
    lemma_acc_ok(cs.drop_last());
}

proof fn lemma_hunk_out_of_range(cs: Seq<Change>, sel: int)
    requires
        sel >= diff_hunks(cs).len(),
    ensures
        hunk_result(cs, sel) == old_side(cs),
    decreases cs.len(),
{
    if cs.len() > 0 {
        lemma_hunks_grow(cs);
        lemma_hunk_out_of_range(cs.drop_last(), sel);
        lemma_hunk_acc_tracks(cs.drop_last(), sel);
    }
}

/// Applying no change of a diff gives its old text.
pub proof fn lemma_lines_none(cs: Seq<Change>, sel: Set<int>)
    requires
        forall|r: int| 0 <= r < cs.len() && cs[r].0 != ChangeTag::Equal ==> !sel.contains(r),
    ensures
        lines_result(cs, sel) == old_side(cs),
    decreases cs.len(),
{
    if cs.len() > 0 {
        assert forall|r: int| 0 <= r < cs.drop_last().len() implies cs.drop_last()[r] == cs[r] by {}
        lemma_lines_none(cs.drop_last(), sel);
    }
}

/// Applying every change of a diff gives its new text.
pub proof fn lemma_lines_all(cs: Seq<Change>, sel: Set<int>)
    requires
        forall|r: int| 0 <= r < cs.len() && cs[r].0 != ChangeTag::Equal ==> sel.contains(r),
    ensures
        lines_result(cs, sel) == new_side(cs),
    decreases cs.len(),
{
    if cs.len() > 0 {
        assert forall|r: int| 0 <= r < cs.drop_last().len() implies cs.drop_last()[r] == cs[r] by {}
        lemma_lines_all(cs.drop_last(), sel);
    }
}

proof fn lemma_rows_prefix(cs: Seq<Change>, n: int)
    requires
        0 <= n <= cs.len(),
    ensures
        diff_acc(cs.take(n)).0.len() == n,
        forall|r: int| 0 <= r < n ==> #[trigger] diff_acc(cs).0[r] == diff_acc(cs.take(n)).0[r],
    decreases cs.len() - n,
{
    lemma_acc_ok(cs.take(n));
    if n < cs.len() {
        lemma_rows_prefix(cs, n + 1);
        assert(cs.take(n + 1).drop_last() =~= cs.take(n));
        lemma_acc_ok(cs.take(n + 1));
        assert forall|r: int| 0 <= r < n implies #[trigger] diff_acc(cs).0[r] == diff_acc(
            cs.take(n),
        ).0[r] by {
            assert(diff_acc(cs).0[r] == diff_acc(cs.take(n + 1)).0[r]);
        }
    } else {
        assert(cs.take(n) =~= cs);
    }
}

proof fn lemma_hunk_is_lines_prefix(cs: Seq<Change>, k: int, n: int)
    requires
        0 <= n <= cs.len(),
    ensures
        hunk_result(cs.take(n), k) == lines_result(
            cs.take(n),
            rows_of_hunk(diff_acc(cs).0, k),
        ),
    decreases n,
{
    if n > 0 {
        let p = cs.take(n);
        assert(p.drop_last() =~= cs.take(n - 1));
        lemma_hunk_is_lines_prefix(cs, k, n - 1);
        lemma_hunk_acc_tracks(cs.take(n - 1), k);
        lemma_rows_prefix(cs, n);
        lemma_acc_ok(cs.take(n - 1));
        lemma_acc_ok(cs);
        let q = cs.take(n - 1);
        assert(p.last() == cs[n - 1]);
        assert(diff_acc(cs).0[n - 1] == diff_acc(p).0[n - 1]);
        let set = rows_of_hunk(diff_acc(cs).0, k);
        if cs[n - 1].0 == ChangeTag::Equal {
            assert(diff_acc(p).0[n - 1].2 is None);
            assert(hunk_result(p, k) == hunk_result(q, k) + cs[n - 1].1);
            assert(lines_result(p, set) == lines_result(q, set) + cs[n - 1].1);
        } else {
            assert(diff_acc(p).0[n - 1].2 == Some(diff_acc(q).4));
            assert(set.contains(n - 1) == (diff_acc(q).4 == k));
        }
    }
}

/// Law: staging hunk `k` gives the same text as staging, line by line,
/// exactly the changed display rows that belong to hunk `k`.
pub proof fn law_hunk_is_its_lines(old: Seq<char>, new: Seq<char>, k: int)
    ensures
        hunk_result(line_diff(old, new), k) == lines_result(
            line_diff(old, new),
            rows_of_hunk(diff_acc(line_diff(old, new)).0, k),
        ),
{
    let cs = line_diff(old, new);
    lemma_hunk_is_lines_prefix(cs, k, cs.len() as int);
    assert(cs.take(cs.len() as int) =~= cs);
}

/// The old text read back from `changes` with only hunk `selected_hunk`
/// applied: its deletions dropped and its insertions added. A hunk number
/// past the last hunk leaves the old text; the only hunk of a diff gives the
/// new text.
pub fn hunk_from_changes(changes: &Vec<LineChange>, selected_hunk: usize) -> (r: String)
    ensures
        r@ == hunk_result(change_models(changes@), selected_hunk as int),
        selected_hunk >= diff_hunks(change_models(changes@)).len() ==> r@ == old_side(change_models(changes@)),
        diff_hunks(change_models(changes@)).len() == 1 && selected_hunk == 0 ==> r@ == new_side(
            change_models(changes@),
        ),
{
    let ghost cs = change_models(changes@);
    let mut result = String::new();
    let mut current_hunk: usize = 0;
    let mut in_change = false;
    let mut i: usize = 0;
    while i < changes.len()
        invariant
            i <= changes.len(),
            cs == change_models(changes@),
            cs.len() == changes.len(),
            (result@, current_hunk as int, in_change) == hunk_acc(
                cs.take(i as int),
                selected_hunk as int,
            ),
            current_hunk <= i,
        decreases changes.len() - i,
    {
        proof {
            assert(cs.take(i + 1).drop_last() =~= cs.take(i as int));
        }
        let change = &changes[i];
        match change.tag {
            ChangeTag::Equal => {
                if in_change {
                    current_hunk = current_hunk + 1;
                    in_change = false;
                }
                result.push_str(change.value.as_str());
            },
            ChangeTag::Delete => {
                in_change = true;
                if current_hunk != selected_hunk {
                    result.push_str(change.value.as_str());
                }
            },
            ChangeTag::Insert => {
                in_change = true;
                if current_hunk == selected_hunk {
                    result.push_str(change.value.as_str());
                }
            },
        }
        i = i + 1;
    }
    proof {
        assert(cs.take(changes.len() as int) =~= cs);
        if selected_hunk >= diff_hunks(cs).len() {
            lemma_hunk_out_of_range(cs, selected_hunk as int);
        }
        if diff_hunks(cs).len() == 1 && selected_hunk == 0 {
            law_single_hunk(cs);
        }
    }
    result
}

/// Apply only the specified hunk to the index content, producing a new file.
/// A hunk number past the last hunk leaves the old text unchanged; where the
/// diff has a single hunk, staging it gives the new text.
pub fn apply_hunk(old: &str, new: &str, selected_hunk: usize) -> (r: String)
    ensures
        r@ == hunk_result(line_diff(old@, new@), selected_hunk as int),
        selected_hunk >= diff_hunks(line_diff(old@, new@)).len() ==> r@ == old@,
        diff_hunks(line_diff(old@, new@)).len() == 1 && selected_hunk == 0 ==> r@ == new@,
{
    let changes = diff_lines(old, new);
    hunk_from_changes(&changes, selected_hunk)
}

/// The old text read back from `changes` with only the changes at the
/// display rows in `selected_rows` applied: a selected deletion drops its
/// line, a selected insertion adds its line. Selecting no changed row gives
/// the old text, selecting every one the new text.
pub fn lines_from_changes(changes: &Vec<LineChange>, selected_rows: &BTreeSet<usize>) -> (r: String)
    ensures
        r@ == lines_result(change_models(changes@), row_set(selected_rows@)),
        (forall|row: int|
            0 <= row < changes@.len() && (#[trigger] change_models(changes@)[row]).0 != ChangeTag::Equal
                ==> !row_set(selected_rows@).contains(row)) ==> r@ == old_side(change_models(changes@)),
        (forall|row: int|
            0 <= row < changes@.len() && (#[trigger] change_models(changes@)[row]).0 != ChangeTag::Equal
                ==> row_set(selected_rows@).contains(row)) ==> r@ == new_side(change_models(changes@)),
{
    let ghost cs = change_models(changes@);
    let mut result = String::new();
    let mut display_row: usize = 0;
    while display_row < changes.len()
        invariant
            display_row <= changes.len(),
            cs == change_models(changes@),
            cs.len() == changes.len(),
            result@ == lines_result(cs.take(display_row as int), row_set(selected_rows@)),
        decreases changes.len() - display_row,
    {
        proof {
            assert(cs.take(display_row + 1).drop_last() =~= cs.take(display_row as int));
        }
        let change = &changes[display_row];
        match change.tag {
            ChangeTag::Equal => {
                result.push_str(change.value.as_str());
            },
            ChangeTag::Delete => {
                if !selected_rows.contains(&display_row) {
                    result.push_str(change.value.as_str());
                }
            },
            ChangeTag::Insert => {
                if selected_rows.contains(&display_row) {
                    result.push_str(change.value.as_str());
                }
            },
        }
        display_row = display_row + 1;
    }
    proof {
        assert(cs.take(changes.len() as int) =~= cs);
        if forall|row: int|
            0 <= row < cs.len() && cs[row].0 != ChangeTag::Equal
                ==> !row_set(selected_rows@).contains(row) {
            lemma_lines_none(cs, row_set(selected_rows@));
        }
        if forall|row: int|
            0 <= row < cs.len() && cs[row].0 != ChangeTag::Equal
                ==> row_set(selected_rows@).contains(row) {
            lemma_lines_all(cs, row_set(selected_rows@));
        }
    }
    result
}

/// Apply only the specified display rows to the index content.
/// `selected_rows` contains display row indices of changed lines to stage.
/// Display rows map 1:1 with diff changes (same order as compute_diff output).
/// Selecting no changed row leaves the old text; selecting every changed row
/// gives the new text.
pub fn apply_lines(old: &str, new: &str, selected_rows: &BTreeSet<usize>) -> (r: String)
    ensures
        r@ == lines_result(line_diff(old@, new@), row_set(selected_rows@)),
        (forall|row: int|
            0 <= row < line_diff(old@, new@).len() && line_diff(old@, new@)[row].0
                != ChangeTag::Equal ==> !row_set(selected_rows@).contains(row)) ==> r@ == old@,
        (forall|row: int|
            0 <= row < line_diff(old@, new@).len() && line_diff(old@, new@)[row].0
                != ChangeTag::Equal ==> row_set(selected_rows@).contains(row)) ==> r@ == new@,
{
    let changes = diff_lines(old, new);
    lines_from_changes(&changes, selected_rows)
}

/// Rows `a..b` of `rows` that belong to a hunk, in order.
pub open spec fn changed_rows(rows: Seq<RowModel>, a: int, b: int) -> Seq<usize>
    decreases b - a,
{
    if b <= a {
        Seq::empty()
    } else {
        changed_rows(rows, a, b - 1) + if rows[b - 1].2 is Some {
            seq![(b - 1) as usize]
        } else {
            Seq::empty()
        }
    }
}

/// Get all display rows that are changed lines within a hunk.
pub fn changed_rows_in_hunk(hunk: &Hunk, left_lines: &[DiffLine]) -> (rows: Vec<usize>)
    requires
        hunk.display_start >= hunk.display_end || hunk.display_end <= left_lines.len(),
    ensures
        rows@ == changed_rows(
            left_lines@.map_values(|d: DiffLine| d.model()),
            hunk.display_start as int,
            hunk.display_end as int,
        ),
{
    let ghost lm = left_lines@.map_values(|d: DiffLine| d.model());
    let mut rows: Vec<usize> = Vec::new();
    let mut i = hunk.display_start;
    if hunk.display_start >= hunk.display_end {
        return rows;
    }
    while i < hunk.display_end
        invariant
            hunk.display_start <= i <= hunk.display_end <= left_lines.len(),
            lm == left_lines@.map_values(|d: DiffLine| d.model()),
            rows@ == changed_rows(lm, hunk.display_start as int, i as int),
        decreases hunk.display_end - i,
    {
        assert(lm[i as int] == left_lines[i as int].model());
        if left_lines[i].hunk_index.is_some() && left_lines[i].kind != DiffLineKind::Spacer || (
        i < left_lines.len() && left_lines[i].kind == DiffLineKind::Spacer
            && left_lines[i].hunk_index.is_some()) {
            rows.push(i);
        }
        i = i + 1;
    }
    rows
}

} // verus!
