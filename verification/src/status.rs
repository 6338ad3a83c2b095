//! File status entries of the working tree and index, their order and labels.
use vstd::prelude::*;

use crate::text::chars_of;

verus! {

broadcast use vstd::seq_lib::group_seq_properties, vstd::multiset::group_multiset_axioms;

/// What happened to a file.
#[derive(Debug, Clone, Copy, PartialEq, Eq, Structural)]
pub enum ChangeKind {
    Modified,
    Added,
    Deleted,
    Renamed,
}

/// Where a change to a file stands.
#[derive(Debug, Clone, Copy, PartialEq, Eq, Structural)]
pub enum FileStatus {
    Staged(ChangeKind),
    Unstaged(ChangeKind),
    Conflict,
    Untracked,
}

/// One row of the file list.
#[derive(Debug, Clone)]
pub struct FileEntry {
    pub path: String,
    pub status: FileStatus,
    pub insertions: usize,
    pub deletions: usize,
}

/// The status bits that git reports for one path.
#[derive(Debug, Clone, Copy, PartialEq, Eq)]
pub struct StatusFlags {
    pub conflicted: bool,
    pub index_new: bool,
    pub index_modified: bool,
    pub index_deleted: bool,
    pub index_renamed: bool,
    pub wt_new: bool,
    pub wt_modified: bool,
    pub wt_deleted: bool,
    pub wt_renamed: bool,
}

pub open spec fn key_of(s: FileStatus) -> int {
    match s {
        FileStatus::Conflict => 0,
        FileStatus::Unstaged(_) => 1,
        FileStatus::Staged(_) => 2,
        FileStatus::Untracked => 3,
    }
}

/// The one-letter label of a status.
pub open spec fn label_text(s: FileStatus) -> Seq<char> {
    match s {
        FileStatus::Staged(k) | FileStatus::Unstaged(k) => match k {
            ChangeKind::Modified => "M"@,
            ChangeKind::Added => "A"@,
            ChangeKind::Deleted => "D"@,
            ChangeKind::Renamed => "R"@,
        },
        FileStatus::Conflict => "C"@,
        FileStatus::Untracked => "?"@,
    }
}

/// The heading of the file-list section of a status.
pub open spec fn section_text(s: FileStatus) -> Seq<char> {
    match s {
        FileStatus::Conflict => "Merge Conflicts"@,
        FileStatus::Unstaged(_) => "Changes"@,
        FileStatus::Untracked => "Untracked"@,
        FileStatus::Staged(_) => "Staged Changes"@,
    }
}

impl FileStatus {
    /// Sections in the file list: conflicts, changes, staged, untracked.
    pub fn sort_key(&self) -> (k: u8)
        ensures
            k == key_of(*self),
    {
        match self {
            FileStatus::Conflict => 0,
            FileStatus::Unstaged(_) => 1,
            FileStatus::Staged(_) => 2,
            FileStatus::Untracked => 3,
        }
    }

    /// One-letter label: M, A, D, R for a change kind, C for a conflict,
    /// ? for an untracked file.
    pub fn short_label(&self) -> (s: &str)
        ensures
            s@ == label_text(*self),
    {
        match self {
            FileStatus::Staged(k) | FileStatus::Unstaged(k) => match k {
                ChangeKind::Modified => "M",
                ChangeKind::Added => "A",
                ChangeKind::Deleted => "D",
                ChangeKind::Renamed => "R",
            },
            FileStatus::Conflict => "C",
            FileStatus::Untracked => "?",
        }
    }

    /// Heading of the file-list section this status belongs to.
    pub fn section_name(&self) -> (s: &str)
        ensures
            s@ == section_text(*self),
    {
        match self {
            FileStatus::Conflict => "Merge Conflicts",
            FileStatus::Unstaged(_) => "Changes",
            FileStatus::Untracked => "Untracked",
            FileStatus::Staged(_) => "Staged Changes",
        }
    }
}

/// The statuses one path gets: a conflict alone; otherwise at most one staged
/// status (new, modified, deleted, renamed, first that holds) and at most one
/// working-tree status (modified, deleted, renamed, then untracked).
pub open spec fn statuses_of(f: StatusFlags) -> Seq<FileStatus> {
    if f.conflicted {
        seq![FileStatus::Conflict]
    } else {
        let staged: Seq<FileStatus> = if f.index_new {
            seq![FileStatus::Staged(ChangeKind::Added)]
        } else if f.index_modified {
            seq![FileStatus::Staged(ChangeKind::Modified)]
        } else if f.index_deleted {
            seq![FileStatus::Staged(ChangeKind::Deleted)]
        } else if f.index_renamed {
            seq![FileStatus::Staged(ChangeKind::Renamed)]
        } else {
            Seq::empty()
        };
        let unstaged: Seq<FileStatus> = if f.wt_modified {
            seq![FileStatus::Unstaged(ChangeKind::Modified)]
        } else if f.wt_deleted {
            seq![FileStatus::Unstaged(ChangeKind::Deleted)]
        } else if f.wt_renamed {
            seq![FileStatus::Unstaged(ChangeKind::Renamed)]
        } else if f.wt_new {
            seq![FileStatus::Untracked]
        } else {
            Seq::empty()
        };
        staged + unstaged
    }
}

fn new_entry(path: &String, status: FileStatus) -> (e: FileEntry)
    ensures
        e.path@ == path@,
        e.status == status,
        e.insertions == 0,
        e.deletions == 0,
{
    FileEntry { path: path.clone(), status, insertions: 0, deletions: 0 }
}

/// The file-list entries for one path, with zero line counts.
pub fn classify_status(path: &String, flags: StatusFlags) -> (es: Vec<FileEntry>)
    ensures
        es@.map_values(|e: FileEntry| e.status) == statuses_of(flags),
        forall|i: int|
            0 <= i < es.len() ==> (#[trigger] es[i]).path@ == path@ && es[i].insertions == 0
                && es[i].deletions == 0,
{
    let mut es: Vec<FileEntry> = Vec::new();
    if flags.conflicted {
        es.push(new_entry(path, FileStatus::Conflict));
        assert(es@.map_values(|e: FileEntry| e.status) =~= statuses_of(flags));
        return es;
    }
    if flags.index_new {
        es.push(new_entry(path, FileStatus::Staged(ChangeKind::Added)));
    } else if flags.index_modified {
        es.push(new_entry(path, FileStatus::Staged(ChangeKind::Modified)));
    } else if flags.index_deleted {
        es.push(new_entry(path, FileStatus::Staged(ChangeKind::Deleted)));
    } else if flags.index_renamed {
        es.push(new_entry(path, FileStatus::Staged(ChangeKind::Renamed)));
    }
    if flags.wt_modified {
        es.push(new_entry(path, FileStatus::Unstaged(ChangeKind::Modified)));
    } else if flags.wt_deleted {
        es.push(new_entry(path, FileStatus::Unstaged(ChangeKind::Deleted)));
    } else if flags.wt_renamed {
        es.push(new_entry(path, FileStatus::Unstaged(ChangeKind::Renamed)));
    } else if flags.wt_new {
        es.push(new_entry(path, FileStatus::Untracked));
    }
    assert(es@.map_values(|e: FileEntry| e.status) =~= statuses_of(flags));
    es
}

/// Lexicographic order of character sequences (the order of `str::cmp`,
/// since UTF-8 keeps code point order).
pub open spec fn seq_lt(a: Seq<char>, b: Seq<char>) -> bool
    decreases a.len(),
{
    if a.len() == 0 {
        b.len() > 0
    } else if b.len() == 0 {
        false
    } else if a[0] != b[0] {
        a[0] < b[0]
    } else {
        seq_lt(a.drop_first(), b.drop_first())
    }
}

pub proof fn lemma_seq_lt_irreflexive(a: Seq<char>)
    ensures
        !seq_lt(a, a),
    decreases a.len(),
{
    if a.len() > 0 {
        lemma_seq_lt_irreflexive(a.drop_first());
    }
}

pub proof fn lemma_seq_lt_total(a: Seq<char>, b: Seq<char>)
    ensures
        a != b ==> seq_lt(a, b) || seq_lt(b, a),
        !(seq_lt(a, b) && seq_lt(b, a)),
    decreases a.len(),
{
    if a.len() > 0 && b.len() > 0 && a[0] == b[0] {
        lemma_seq_lt_total(a.drop_first(), b.drop_first());
        if a.drop_first() == b.drop_first() {
            assert(a =~= b);
        }
    } else if a.len() == 0 && b.len() == 0 {
        assert(a =~= b);
    }
}

pub proof fn lemma_seq_lt_transitive(a: Seq<char>, b: Seq<char>, c: Seq<char>)
    requires
        seq_lt(a, b),
        seq_lt(b, c),
    ensures
        seq_lt(a, c),
    decreases a.len(),
{
    if a.len() > 0 && b.len() > 0 && c.len() > 0 && a[0] == b[0] && b[0] == c[0] {
        lemma_seq_lt_transitive(a.drop_first(), b.drop_first(), c.drop_first());
    }
}

/// The file-list order: by section, then by path.
pub open spec fn entry_lt(a: FileEntry, b: FileEntry) -> bool {
    key_of(a.status) < key_of(b.status) || (key_of(a.status) == key_of(b.status) && seq_lt(
        a.path@,
        b.path@,
    ))
}

/// Whether `s` is in file-list order.
pub open spec fn entries_sorted(s: Seq<FileEntry>) -> bool {
    forall|i: int, j: int| 0 <= i < j < s.len() ==> !entry_lt(#[trigger] s[j], #[trigger] s[i])
}

proof fn lemma_entry_order(a: FileEntry, b: FileEntry, c: FileEntry)
    ensures
        !entry_lt(a, b) ==> !entry_lt(b, a) || !(entry_lt(a, b)),
        entry_lt(a, b) ==> !entry_lt(b, a),
        !entry_lt(b, a) && !entry_lt(c, b) ==> !entry_lt(c, a),
        entry_lt(a, b) && !entry_lt(c, b) ==> entry_lt(a, c),
{
    lemma_seq_lt_total(a.path@, b.path@);
    lemma_seq_lt_total(b.path@, c.path@);
    lemma_seq_lt_total(a.path@, c.path@);
    if seq_lt(c.path@, b.path@) && seq_lt(b.path@, a.path@) {
        lemma_seq_lt_transitive(c.path@, b.path@, a.path@);
    }
    if seq_lt(a.path@, b.path@) && seq_lt(b.path@, c.path@) {
        lemma_seq_lt_transitive(a.path@, b.path@, c.path@);
    }
    lemma_seq_lt_irreflexive(a.path@);
    lemma_seq_lt_irreflexive(b.path@);
    if b.path@ == c.path@ {
    }
    if a.path@ == b.path@ {
    }
}

/// Whether `a` comes before `b` in lexicographic order.
pub fn str_lt(a: &str, b: &str) -> (r: bool)
    ensures
        r == seq_lt(a@, b@),
{
    let va = chars_of(a);
    let vb = chars_of(b);
    let mut i: usize = 0;
    while i < va.len() && i < vb.len() && va[i] == vb[i]
        invariant
            i <= va.len() && i <= vb.len(),
            va@ == a@ && vb@ == b@,
            seq_lt(a@, b@) == seq_lt(a@.skip(i as int), b@.skip(i as int)),
        decreases va.len() - i,
    {
        assert(a@.skip(i as int).drop_first() =~= a@.skip(i + 1));
        assert(b@.skip(i as int).drop_first() =~= b@.skip(i + 1));
        i = i + 1;
    }
    if i == va.len() {
        i < vb.len()
    } else if i == vb.len() {
        false
    } else {
        va[i] < vb[i]
    }
}

fn entry_before(a: &FileEntry, b: &FileEntry) -> (r: bool)
    ensures
        r == entry_lt(*a, *b),
{
    let ka = a.status.sort_key();
    let kb = b.status.sort_key();
    ka < kb || (ka == kb && str_lt(a.path.as_str(), b.path.as_str()))
}

/// An entry as plain values: path, status, insertions, deletions.
pub type EntryModel = (Seq<char>, FileStatus, usize, usize);

pub open spec fn entry_model(e: FileEntry) -> EntryModel {
    (e.path@, e.status, e.insertions, e.deletions)
}

pub open spec fn entry_models(s: Seq<FileEntry>) -> Seq<EntryModel> {
    s.map_values(|e: FileEntry| entry_model(e))
}

/// Put entries in file-list order (by section, then by path), keeping the
/// order of entries that compare equal.
pub fn sort_entries(v: Vec<FileEntry>) -> (r: Vec<FileEntry>)
    ensures
        entries_sorted(r@),
        entry_models(r@).to_multiset() == entry_models(v@).to_multiset(),
{
    let mut r: Vec<FileEntry> = Vec::new();
    let mut src = v;
    let ghost orig = src@;
    while src.len() > 0
        invariant
            entries_sorted(r@),
            entry_models(r@).to_multiset().add(entry_models(src@).to_multiset()) == entry_models(
                orig,
            ).to_multiset(),
        decreases src.len(),
    {
        let ghost prev = src@;
        let x = src.remove(0);
        proof {
            vstd::seq_lib::to_multiset_remove(entry_models(prev), 0);
            assert(entry_models(src@) =~= entry_models(prev).remove(0));
            assert(entry_models(prev).to_multiset() =~= entry_models(src@).to_multiset().insert(
                entry_model(x),
            ));
        }
        let mut j = r.len();
        while j > 0 && entry_before(&x, &r[j - 1])
            invariant
                j <= r.len(),
                entries_sorted(r@),
                forall|k: int| j <= k < r.len() ==> entry_lt(x, #[trigger] r@[k]),
            decreases j,
        {
            j = j - 1;
        }
        let ghost before = r@;
        proof {
            assert forall|k: int| 0 <= k < j implies !entry_lt(x, #[trigger] before[k]) by {
                if k < j - 1 {
                    lemma_entry_order(before[k], before[j - 1], x);
                }
            }
        }
        r.insert(j, x);
        proof {
            assert(r@ == before.insert(j as int, x));
            assert forall|a: int, b: int| 0 <= a < b < r@.len() implies !entry_lt(
                #[trigger] r@[b],
                #[trigger] r@[a],
            ) by {
                if a < j && b == j {
                } else if a == j && b > j {
                    lemma_entry_order(x, before[b - 1], x);
                } else if a < j && b > j {
                    lemma_entry_order(before[b - 1], before[a], x);
                    lemma_entry_order(before[a], x, before[b - 1]);
                } else if b < j {
                } else {
                    assert(r@[a] == before[a - 1]);
                    assert(r@[b] == before[b - 1]);
                }
            }
            assert(entry_models(r@) =~= entry_models(before).insert(j as int, entry_model(x)));
            vstd::seq_lib::to_multiset_insert(entry_models(before), j as int, entry_model(x));
            assert(entry_models(r@).to_multiset().add(entry_models(src@).to_multiset())
                =~= entry_models(orig).to_multiset());
        }
    }
    r
}

/// Line counts of one file in one diff.
#[derive(Debug, Clone)]
pub struct LineStats {
    pub path: String,
    pub insertions: usize,
    pub deletions: usize,
}

/// The counts recorded last for `path`, if any (a later record replaces an
/// earlier one, as in a map).
pub open spec fn stats_for(stats: Seq<LineStats>, path: Seq<char>) -> Option<(usize, usize)>
    decreases stats.len(),
{
    if stats.len() == 0 {
        None
    } else if stats.last().path@ == path {
        Some((stats.last().insertions, stats.last().deletions))
    } else {
        stats_for(stats.drop_last(), path)
    }
}

/// The line counts shown for an entry: from the staged diff for a staged
/// entry, from the working-tree diff otherwise; zero when not recorded.
pub open spec fn counts_for(
    status: FileStatus,
    path: Seq<char>,
    staged: Seq<LineStats>,
    unstaged: Seq<LineStats>,
) -> (usize, usize) {
    let m = match status {
        FileStatus::Staged(_) => staged,
        _ => unstaged,
    };
    match stats_for(m, path) {
        Some(c) => c,
        None => (0, 0),
    }
}

/// The entry models that one path contributes.
pub open spec fn path_entries(
    path: Seq<char>,
    flags: StatusFlags,
    staged: Seq<LineStats>,
    unstaged: Seq<LineStats>,
) -> Seq<EntryModel> {
    statuses_of(flags).map_values(
        |st: FileStatus|
            (
                path,
                st,
                counts_for(st, path, staged, unstaged).0,
                counts_for(st, path, staged, unstaged).1,
            ),
    )
}

/// The entry models of all paths, in the order git reported them.
pub open spec fn all_entries(
    raw: Seq<(String, StatusFlags)>,
    staged: Seq<LineStats>,
    unstaged: Seq<LineStats>,
) -> Seq<EntryModel>
    decreases raw.len(),
{
    if raw.len() == 0 {
        Seq::empty()
    } else {
        all_entries(raw.drop_last(), staged, unstaged) + path_entries(
            raw.last().0@,
            raw.last().1,
            staged,
            unstaged,
        )
    }
}

/// The line counts recorded last for `path`.
pub fn lookup_stats(stats: &Vec<LineStats>, path: &String) -> (r: Option<(usize, usize)>)
    ensures
        r == stats_for(stats@, path@),
{
    let mut i = stats.len();
    while i > 0
        invariant
            i <= stats.len(),
            stats_for(stats@, path@) == stats_for(stats@.take(i as int), path@),
        decreases i,
    {
        assert(stats@.take(i as int).drop_last() =~= stats@.take(i - 1));
        if stats[i - 1].path == *path {
            return Some((stats[i - 1].insertions, stats[i - 1].deletions));
        }
        i = i - 1;
    }
    None
}

/// The file list: one entry per status of each path (see `statuses_of`),
/// each with its line counts, in file-list order.
pub fn build_file_entries(
    raw: &Vec<(String, StatusFlags)>,
    staged: &Vec<LineStats>,
    unstaged: &Vec<LineStats>,
) -> (r: Vec<FileEntry>)
    ensures
        entries_sorted(r@),
        entry_models(r@).to_multiset() == all_entries(raw@, staged@, unstaged@).to_multiset(),
{
    let mut entries: Vec<FileEntry> = Vec::new();
    let mut i: usize = 0;
    while i < raw.len()
        invariant
            i <= raw.len(),
            entry_models(entries@) == all_entries(raw@.take(i as int), staged@, unstaged@),
        decreases raw.len() - i,
    {
        assert(raw@.take(i + 1).drop_last() =~= raw@.take(i as int));
        let path = &raw[i].0;
        let es = classify_status(path, raw[i].1);
        let ghost start = entry_models(entries@);
        let mut j: usize = 0;
        while j < es.len()
            invariant
                j <= es.len(),
                es@.map_values(|e: FileEntry| e.status) == statuses_of(raw@[i as int].1),
                forall|k: int| 0 <= k < es.len() ==> (#[trigger] es[k]).path@ == path@,
                path@ == raw@[i as int].0@,
                entry_models(entries@) == start + path_entries(
                    path@,
                    raw@[i as int].1,
                    staged@,
                    unstaged@,
                ).take(j as int),
            decreases es.len() - j,
        {
            let st = es[j].status;
            assert(statuses_of(raw@[i as int].1)[j as int] == st);
            let counts = match st {
                FileStatus::Staged(_) => lookup_stats(staged, path),
                _ => lookup_stats(unstaged, path),
            };
            let (ins, del) = match counts {
                Some(c) => c,
                None => (0, 0),
            };
            let ghost before = entry_models(entries@);
            entries.push(FileEntry { path: path.clone(), status: st, insertions: ins, deletions: del });
            assert(entry_models(entries@) =~= before.push((path@, st, ins, del)));
            assert(path_entries(path@, raw@[i as int].1, staged@, unstaged@).take(j + 1)
                =~= path_entries(path@, raw@[i as int].1, staged@, unstaged@).take(j as int).push(
                (path@, st, ins, del),
            ));
            j = j + 1;
        }
        assert(path_entries(path@, raw@[i as int].1, staged@, unstaged@).take(es.len() as int)
            =~= path_entries(path@, raw@[i as int].1, staged@, unstaged@));
        i = i + 1;
    }
    assert(raw@.take(raw.len() as int) =~= raw@);
    sort_entries(entries)
}

/// The entries of `ss` that are not staged (working-tree changes and
/// untracked files), in order.
pub open spec fn worktree_entries(ss: Seq<FileStatus>) -> Seq<FileStatus>
    decreases ss.len(),
{
    if ss.len() == 0 {
        Seq::empty()
    } else {
        worktree_entries(ss.drop_last()) + if ss.last() is Staged {
            Seq::<FileStatus>::empty()
        } else {
            seq![ss.last()]
        }
    }
}

/// The entries of `ss` that are staged, in order.
pub open spec fn index_entries(ss: Seq<FileStatus>) -> Seq<FileStatus>
    decreases ss.len(),
{
    if ss.len() == 0 {
        Seq::empty()
    } else {
        index_entries(ss.drop_last()) + if ss.last() is Staged {
            seq![ss.last()]
        } else {
            Seq::<FileStatus>::empty()
        }
    }
}

proof fn lemma_split_entries(a: Seq<FileStatus>, b: FileStatus)
    requires
        a.len() <= 1,
        forall|k: int| 0 <= k < a.len() ==> #[trigger] a[k] is Staged,
        !(b is Staged),
    ensures
        worktree_entries(a) == Seq::<FileStatus>::empty(),
        worktree_entries(a.push(b)) == seq![b],
        index_entries(a) == a,
        index_entries(a.push(b)) == a,
{
    reveal_with_fuel(worktree_entries, 3);
    reveal_with_fuel(index_entries, 3);
    assert(a.push(b).drop_last() =~= a);
    if a.len() == 1 {
        assert(a.drop_last() =~= Seq::<FileStatus>::empty());
        assert(index_entries(a) =~= a);
    } else {
        assert(a =~= Seq::<FileStatus>::empty());
    }
}

/// Law: a path's working-tree status does not depend on its index status.
/// Outside a conflict, a path modified (else deleted, else renamed, else
/// new) in the working tree gets the matching unstaged (or untracked) entry,
/// and its index status adds at most one staged entry before it without
/// taking that entry's place: the entries of a path are its staged entry,
/// if any, followed by its working-tree entry, if any, and two sets of
/// flags that agree on the working tree give the same working-tree entries.
pub proof fn law_worktree_status_independent(f: StatusFlags, g: StatusFlags)
    requires
        !f.conflicted,
        !g.conflicted,
        f.wt_new == g.wt_new && f.wt_modified == g.wt_modified && f.wt_deleted == g.wt_deleted
            && f.wt_renamed == g.wt_renamed,
    ensures
        worktree_entries(statuses_of(f)) == worktree_entries(statuses_of(g)),
        f.wt_modified ==> worktree_entries(statuses_of(f)) == seq![FileStatus::Unstaged(ChangeKind::Modified)],
        !f.wt_modified && f.wt_deleted ==> worktree_entries(statuses_of(f)) == seq![
            FileStatus::Unstaged(ChangeKind::Deleted),
        ],
        !f.wt_modified && !f.wt_deleted && f.wt_renamed ==> worktree_entries(statuses_of(f)) == seq![
            FileStatus::Unstaged(ChangeKind::Renamed),
        ],
        !f.wt_modified && !f.wt_deleted && !f.wt_renamed && f.wt_new ==> worktree_entries(statuses_of(f))
            == seq![FileStatus::Untracked],
        !f.wt_modified && !f.wt_deleted && !f.wt_renamed && !f.wt_new ==> worktree_entries(statuses_of(f)).len()
            == 0,
        f.index_new ==> index_entries(statuses_of(f)) == seq![FileStatus::Staged(ChangeKind::Added)],
        !f.index_new && !f.index_modified && !f.index_deleted && !f.index_renamed ==> index_entries(
            statuses_of(f),
        ).len() == 0,
        statuses_of(f) == index_entries(statuses_of(f)) + worktree_entries(statuses_of(f)),
{
    lemma_statuses_parts(f);
    lemma_statuses_parts(g);
}

proof fn lemma_statuses_parts(f: StatusFlags)
    requires
        !f.conflicted,
    ensures
        ({
            let ss = statuses_of(f);
            let w: Seq<FileStatus> = if f.wt_modified {
                seq![FileStatus::Unstaged(ChangeKind::Modified)]
            } else if f.wt_deleted {
                seq![FileStatus::Unstaged(ChangeKind::Deleted)]
            } else if f.wt_renamed {
                seq![FileStatus::Unstaged(ChangeKind::Renamed)]
            } else if f.wt_new {
                seq![FileStatus::Untracked]
            } else {
                Seq::empty()
            };
            let x: Seq<FileStatus> = if f.index_new {
                seq![FileStatus::Staged(ChangeKind::Added)]
            } else if f.index_modified {
                seq![FileStatus::Staged(ChangeKind::Modified)]
            } else if f.index_deleted {
                seq![FileStatus::Staged(ChangeKind::Deleted)]
            } else if f.index_renamed {
                seq![FileStatus::Staged(ChangeKind::Renamed)]
            } else {
                Seq::empty()
            };
            &&& worktree_entries(ss) == w
            &&& index_entries(ss) == x
            &&& ss == x + w
        }),
{
    let ss = statuses_of(f);
    let x: Seq<FileStatus> = if f.index_new {
        seq![FileStatus::Staged(ChangeKind::Added)]
    } else if f.index_modified {
        seq![FileStatus::Staged(ChangeKind::Modified)]
    } else if f.index_deleted {
        seq![FileStatus::Staged(ChangeKind::Deleted)]
    } else if f.index_renamed {
        seq![FileStatus::Staged(ChangeKind::Renamed)]
    } else {
        Seq::empty()
    };
    let w: Seq<FileStatus> = if f.wt_modified {
        seq![FileStatus::Unstaged(ChangeKind::Modified)]
    } else if f.wt_deleted {
        seq![FileStatus::Unstaged(ChangeKind::Deleted)]
    } else if f.wt_renamed {
        seq![FileStatus::Unstaged(ChangeKind::Renamed)]
    } else if f.wt_new {
        seq![FileStatus::Untracked]
    } else {
        Seq::empty()
    };
    if w.len() == 1 {
        lemma_split_entries(x, w[0]);
        assert(x + w =~= x.push(w[0]));
    } else {
        assert(x + w =~= x);
        lemma_split_entries(x, FileStatus::Untracked);
    }
}

} // verus!
