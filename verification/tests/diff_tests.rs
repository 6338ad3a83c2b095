use std::collections::BTreeSet;

use stage_rs::diff::{
    apply_hunk, apply_lines, changed_rows_in_hunk, compute_diff, diff_from_changes, hunk_from_changes, lines_from_changes,
    ChangeTag, DiffLineKind, LineChange,
};

#[test]
fn test_apply_hunk_stages_only_selected() {
    let old = "line1\nline2\nline3\nline4\nline5\n";
    let new = "line1\nchanged2\nline3\nline4\nadded\nline5\n";

    let result0 = apply_hunk(old, new, 0);
    assert_eq!(result0, "line1\nchanged2\nline3\nline4\nline5\n");

    let result1 = apply_hunk(old, new, 1);
    assert_eq!(result1, "line1\nline2\nline3\nline4\nadded\nline5\n");
}

#[test]
fn test_apply_hunk_pure_addition() {
    let old = "a\nb\n";
    let new = "a\nnew\nb\n";

    let result = apply_hunk(old, new, 0);
    assert_eq!(result, "a\nnew\nb\n");
}

#[test]
fn test_apply_hunk_pure_deletion() {
    let old = "a\ndelete_me\nb\n";
    let new = "a\nb\n";

    let result = apply_hunk(old, new, 0);
    assert_eq!(result, "a\nb\n");
}

#[test]
fn test_compute_diff_hunk_count() {
    let old = "a\nb\nc\nd\ne\n";
    let new = "a\nB\nc\nd\nE\n";

    let (_, _, hunks) = compute_diff(old, new);
    assert_eq!(hunks.len(), 2);
}

#[test]
fn test_apply_lines_selective() {
    // old: line1, line2, line3, line4, line5
    // new: line1, changed2, line3, changed4, line5
    // Display rows:
    //   0: Equal "line1"
    //   1: Delete "line2"   (hunk 0)
    //   2: Insert "changed2" (hunk 0)
    //   3: Equal "line3"
    //   4: Delete "line4"   (hunk 1)
    //   5: Insert "changed4" (hunk 1)
    //   6: Equal "line5"
    let old = "line1\nline2\nline3\nline4\nline5\n";
    let new = "line1\nchanged2\nline3\nchanged4\nline5\n";

    // Stage only the first change (rows 1 and 2)
    let mut selected = BTreeSet::new();
    selected.insert(1); // delete line2
    selected.insert(2); // insert changed2
    let result = apply_lines(old, new, &selected);
    assert_eq!(result, "line1\nchanged2\nline3\nline4\nline5\n");

    // Stage only the second change (rows 4 and 5)
    let mut selected = BTreeSet::new();
    selected.insert(4); // delete line4
    selected.insert(5); // insert changed4
    let result = apply_lines(old, new, &selected);
    assert_eq!(result, "line1\nline2\nline3\nchanged4\nline5\n");
}

#[test]
fn test_apply_lines_stage_only_addition() {
    // Stage only the insert, not the delete in a replace
    let old = "a\nold\nb\n";
    let new = "a\nnew\nb\n";
    // row 0: Equal "a"
    // row 1: Delete "old"
    // row 2: Insert "new"
    // row 3: Equal "b"

    // Stage only the addition (keep old line AND add new)
    let mut selected = BTreeSet::new();
    selected.insert(2);
    let result = apply_lines(old, new, &selected);
    assert_eq!(result, "a\nold\nnew\nb\n");
}

#[test]
fn test_apply_lines_stage_only_deletion() {
    let old = "a\nold\nb\n";
    let new = "a\nnew\nb\n";

    // Stage only the deletion (remove old, don't add new)
    let mut selected = BTreeSet::new();
    selected.insert(1);
    let result = apply_lines(old, new, &selected);
    assert_eq!(result, "a\nb\n");
}

#[test]
fn test_compute_diff_empty_strings() {
    let (left, right, hunks) = compute_diff("", "");
    assert!(left.is_empty());
    assert!(right.is_empty());
    assert!(hunks.is_empty());
}

#[test]
fn test_compute_diff_identical_input() {
    let text = "line1\nline2\nline3\n";
    let (left, right, hunks) = compute_diff(text, text);
    assert!(hunks.is_empty());
    assert!(left.iter().all(|l| l.kind == DiffLineKind::Equal));
    assert!(right.iter().all(|l| l.kind == DiffLineKind::Equal));
}

#[test]
fn test_compute_diff_all_added() {
    let (left, right, hunks) = compute_diff("", "a\nb\n");
    assert_eq!(hunks.len(), 1);
    assert!(left.iter().all(|l| l.kind == DiffLineKind::Spacer));
    assert!(right.iter().all(|l| l.kind == DiffLineKind::Added));
}

#[test]
fn test_compute_diff_all_removed() {
    let (left, right, hunks) = compute_diff("a\nb\n", "");
    assert_eq!(hunks.len(), 1);
    assert!(left.iter().all(|l| l.kind == DiffLineKind::Removed));
    assert!(right.iter().all(|l| l.kind == DiffLineKind::Spacer));
}

#[test]
fn test_compute_diff_left_right_same_length() {
    let old = "a\nb\nc\n";
    let new = "a\nX\nc\n";
    let (left, right, _) = compute_diff(old, new);
    assert_eq!(left.len(), right.len());
}

#[test]
fn test_compute_diff_hunk_indices_consistent() {
    let old = "a\nb\nc\nd\ne\n";
    let new = "a\nB\nc\nd\nE\n";
    let (left, right, hunks) = compute_diff(old, new);

    // All changed lines should have hunk_index set
    for line in &left {
        if line.kind != DiffLineKind::Equal {
            assert!(line.hunk_index.is_some());
        }
    }
    for line in &right {
        if line.kind != DiffLineKind::Equal {
            assert!(line.hunk_index.is_some());
        }
    }

    // Hunk ranges should be valid
    for hunk in &hunks {
        assert!(hunk.display_start < hunk.display_end);
        assert!(hunk.display_end <= left.len());
    }
}

#[test]
fn test_changed_rows_in_hunk() {
    let old = "a\nb\nc\nd\ne\n";
    let new = "a\nB\nc\nd\nE\n";
    let (left, _, hunks) = compute_diff(old, new);

    assert_eq!(hunks.len(), 2);
    let rows0 = changed_rows_in_hunk(&hunks[0], &left);
    let rows1 = changed_rows_in_hunk(&hunks[1], &left);

    // Each hunk should have changed rows within its range
    for &r in &rows0 {
        assert!(r >= hunks[0].display_start && r < hunks[0].display_end);
    }
    for &r in &rows1 {
        assert!(r >= hunks[1].display_start && r < hunks[1].display_end);
    }

    // Both hunks should have non-empty changed rows
    assert!(!rows0.is_empty());
    assert!(!rows1.is_empty());
}

#[test]
fn test_apply_hunk_no_change_when_wrong_index() {
    let old = "a\nb\nc\n";
    let new = "a\nB\nc\n";

    // Selecting a hunk index that doesn't exist should keep old content
    let result = apply_hunk(old, new, 99);
    assert_eq!(result, old);
}

#[test]
fn test_apply_lines_empty_selection() {
    let old = "a\nold\nb\n";
    let new = "a\nnew\nb\n";

    // No rows selected = keep old content
    let selected = BTreeSet::new();
    let result = apply_lines(old, new, &selected);
    assert_eq!(result, old);
}

#[test]
fn compute_diff_rows_of_a_replacement() {
    let (left, right, hunks) = compute_diff("a\nold\nb\n", "a\nnew\nb\n");
    let lk: Vec<DiffLineKind> = left.iter().map(|l| l.kind).collect();
    let rk: Vec<DiffLineKind> = right.iter().map(|l| l.kind).collect();
    assert_eq!(lk, vec![DiffLineKind::Equal, DiffLineKind::Removed, DiffLineKind::Spacer, DiffLineKind::Equal]);
    assert_eq!(rk, vec![DiffLineKind::Equal, DiffLineKind::Spacer, DiffLineKind::Added, DiffLineKind::Equal]);
    assert_eq!(left[1].content, "old");
    assert_eq!(right[2].content, "new");
    assert_eq!(left[1].hunk_index, Some(0));
    assert_eq!(left[0].hunk_index, None);
    assert_eq!(hunks.len(), 1);
    assert_eq!((hunks[0].display_start, hunks[0].display_end), (1, 3));
    assert_eq!(changed_rows_in_hunk(&hunks[0], &left), vec![1, 2]);
}

#[test]
fn staging_a_hunk_equals_staging_its_lines() {
    let old = "a\nb\nc\nd\ne\n";
    let new = "a\nB\nc\nd\nE\n";
    let (left, _, hunks) = compute_diff(old, new);
    for (i, h) in hunks.iter().enumerate() {
        let rows: BTreeSet<usize> = changed_rows_in_hunk(h, &left).into_iter().collect();
        assert_eq!(apply_hunk(old, new, i), apply_lines(old, new, &rows));
    }
}

#[test]
fn staging_every_line_gives_the_new_text() {
    let old = "x\ny\n";
    let new = "x\nz\nw\n";
    let (left, _, _) = compute_diff(old, new);
    let all: BTreeSet<usize> = (0..left.len()).collect();
    assert_eq!(apply_lines(old, new, &all), new);
}

fn change(tag: ChangeTag, value: &str) -> LineChange {
    LineChange { tag, value: value.to_string() }
}

fn replacement_changes() -> Vec<LineChange> {
    vec![
        change(ChangeTag::Equal, "a\n"),
        change(ChangeTag::Delete, "b\n"),
        change(ChangeTag::Insert, "B\n"),
        change(ChangeTag::Equal, "c\n"),
        change(ChangeTag::Insert, "d\n"),
    ]
}

#[test]
fn diff_from_changes_lays_out_rows_and_hunks() {
    let (left, right, hunks) = diff_from_changes(&replacement_changes());
    let l: Vec<(&str, DiffLineKind, Option<usize>)> =
        left.iter().map(|d| (d.content.as_str(), d.kind, d.hunk_index)).collect();
    let r: Vec<(&str, DiffLineKind, Option<usize>)> =
        right.iter().map(|d| (d.content.as_str(), d.kind, d.hunk_index)).collect();
    assert_eq!(
        l,
        vec![
            ("a", DiffLineKind::Equal, None),
            ("b", DiffLineKind::Removed, Some(0)),
            ("", DiffLineKind::Spacer, Some(0)),
            ("c", DiffLineKind::Equal, None),
            ("", DiffLineKind::Spacer, Some(1)),
        ]
    );
    assert_eq!(
        r,
        vec![
            ("a", DiffLineKind::Equal, None),
            ("", DiffLineKind::Spacer, Some(0)),
            ("B", DiffLineKind::Added, Some(0)),
            ("c", DiffLineKind::Equal, None),
            ("d", DiffLineKind::Added, Some(1)),
        ]
    );
    let hs: Vec<(usize, usize)> = hunks.iter().map(|h| (h.display_start, h.display_end)).collect();
    assert_eq!(hs, vec![(1, 3), (4, 5)]);
}

#[test]
fn hunk_and_lines_from_changes() {
    let cs = replacement_changes();
    assert_eq!(hunk_from_changes(&cs, 0), "a\nB\nc\n");
    assert_eq!(hunk_from_changes(&cs, 1), "a\nb\nc\nd\n");
    assert_eq!(hunk_from_changes(&cs, 2), "a\nb\nc\n");
    let rows: BTreeSet<usize> = [1, 4].into_iter().collect();
    assert_eq!(lines_from_changes(&cs, &rows), "a\nc\nd\n");
    assert_eq!(lines_from_changes(&cs, &BTreeSet::new()), "a\nb\nc\n");
}

#[test]
fn staging_the_only_hunk_gives_the_new_text() {
    let old = "p\nq\n";
    let new = "p\nr\ns\n";
    let (_, _, hunks) = compute_diff(old, new);
    assert_eq!(hunks.len(), 1);
    assert_eq!(apply_hunk(old, new, 0), new);
}

#[test]
fn rows_carry_the_number_of_the_hunk_they_lie_in() {
    let (left, _, hunks) = compute_diff("a\nb\nc\nd\ne\n", "a\nX\nc\nd\nY\nZ\n");
    for (i, row) in left.iter().enumerate() {
        let inside = hunks.iter().position(|h| h.display_start <= i && i < h.display_end);
        assert_eq!(row.hunk_index, inside);
    }
}

#[test]
fn each_line_appears_once_per_side() {
    let old = "one\ntwo\r\nthree";
    let new = "zero\none\nthree";
    let (left, right, _) = compute_diff(old, new);
    let l: Vec<&str> = left.iter().filter(|d| d.kind != DiffLineKind::Spacer).map(|d| d.content.as_str()).collect();
    let r: Vec<&str> = right.iter().filter(|d| d.kind != DiffLineKind::Spacer).map(|d| d.content.as_str()).collect();
    assert_eq!(l, vec!["one", "two\r", "three"]);
    assert_eq!(r, vec!["zero", "one", "three"]);
}

#[test]
fn equal_texts_give_no_hunk() {
    let s = "x\r\ny\rz";
    let (left, right, hunks) = compute_diff(s, s);
    assert!(hunks.is_empty());
    assert_eq!(left.len(), 3);
    for (l, r) in left.iter().zip(right.iter()) {
        assert_eq!(l.kind, DiffLineKind::Equal);
        assert_eq!(r.kind, DiffLineKind::Equal);
        assert_eq!(l.hunk_index, None);
        assert_eq!(l.content, r.content);
    }
}
