use stage_rs::status::{
    build_file_entries, classify_status, sort_entries, ChangeKind, FileEntry, FileStatus,
    LineStats, StatusFlags,
};
use stage_rs::syntax::file_extension;

#[test]
fn test_sort_key_ordering() {
    assert!(FileStatus::Conflict.sort_key() < FileStatus::Unstaged(ChangeKind::Modified).sort_key());
    assert!(
        FileStatus::Unstaged(ChangeKind::Modified).sort_key()
            < FileStatus::Staged(ChangeKind::Modified).sort_key()
    );
    assert!(FileStatus::Staged(ChangeKind::Modified).sort_key() < FileStatus::Untracked.sort_key());
}

#[test]
fn test_short_label_all_variants() {
    assert_eq!(FileStatus::Staged(ChangeKind::Modified).short_label(), "M");
    assert_eq!(FileStatus::Unstaged(ChangeKind::Added).short_label(), "A");
    assert_eq!(FileStatus::Staged(ChangeKind::Deleted).short_label(), "D");
    assert_eq!(FileStatus::Unstaged(ChangeKind::Renamed).short_label(), "R");
    assert_eq!(FileStatus::Untracked.short_label(), "?");
    assert_eq!(FileStatus::Conflict.short_label(), "C");
}

#[test]
fn test_section_name_all_variants() {
    assert_eq!(FileStatus::Conflict.section_name(), "Merge Conflicts");
    assert_eq!(FileStatus::Unstaged(ChangeKind::Modified).section_name(), "Changes");
    assert_eq!(FileStatus::Untracked.section_name(), "Untracked");
    assert_eq!(FileStatus::Staged(ChangeKind::Added).section_name(), "Staged Changes");
}

#[test]
fn test_file_extension_rs() {
    assert_eq!(file_extension("src/main.rs"), Some("rs"));
}

#[test]
fn test_file_extension_nested_path() {
    assert_eq!(file_extension("src/git/diff.rs"), Some("rs"));
}

#[test]
fn test_file_extension_no_ext() {
    assert_eq!(file_extension("Makefile"), None);
}

#[test]
fn test_file_extension_hidden_file() {
    assert_eq!(file_extension(".gitignore"), None);
}

#[test]
fn test_file_extension_dotfile_with_ext() {
    assert_eq!(file_extension(".config.toml"), Some("toml"));
}

#[test]
fn test_file_extension_multiple_dots() {
    assert_eq!(file_extension("archive.tar.gz"), Some("gz"));
}

#[test]
fn test_file_extension_js() {
    assert_eq!(file_extension("index.js"), Some("js"));
}

#[test]
fn file_extension_edge_cases() {
    assert_eq!(file_extension("dir.d/file"), None);
    assert_eq!(file_extension("a/b.c/"), Some("c"));
    assert_eq!(file_extension("name."), Some(""));
    assert_eq!(file_extension(""), None);
}

fn flags() -> StatusFlags {
    StatusFlags {
        conflicted: false,
        index_new: false,
        index_modified: false,
        index_deleted: false,
        index_renamed: false,
        wt_new: false,
        wt_modified: false,
        wt_deleted: false,
        wt_renamed: false,
    }
}

fn stats(path: &str, insertions: usize, deletions: usize) -> LineStats {
    LineStats { path: path.to_string(), insertions, deletions }
}

#[test]
fn classify_untracked_and_staged_new() {
    let untracked = classify_status(&"new.txt".to_string(), StatusFlags { wt_new: true, ..flags() });
    assert_eq!(untracked.len(), 1);
    assert_eq!(untracked[0].status, FileStatus::Untracked);
    let staged = classify_status(&"new.txt".to_string(), StatusFlags { index_new: true, ..flags() });
    assert_eq!(staged.len(), 1);
    assert_eq!(staged[0].status, FileStatus::Staged(ChangeKind::Added));
}

#[test]
fn classify_staged_and_unstaged_together() {
    let both = classify_status(
        &"hello.txt".to_string(),
        StatusFlags { index_modified: true, wt_modified: true, ..flags() },
    );
    let st: Vec<FileStatus> = both.iter().map(|e| e.status).collect();
    assert_eq!(st, vec![FileStatus::Staged(ChangeKind::Modified), FileStatus::Unstaged(ChangeKind::Modified)]);
    assert!(both.iter().all(|e| e.path == "hello.txt"));
}

#[test]
fn classify_conflict_hides_other_bits() {
    let c = classify_status(
        &"c.txt".to_string(),
        StatusFlags { conflicted: true, index_modified: true, wt_modified: true, ..flags() },
    );
    assert_eq!(c.len(), 1);
    assert_eq!(c[0].status, FileStatus::Conflict);
    let d = classify_status(&"d.txt".to_string(), StatusFlags { wt_deleted: true, wt_new: true, ..flags() });
    assert_eq!(d.len(), 1);
    assert_eq!(d[0].status, FileStatus::Unstaged(ChangeKind::Deleted));
}

#[test]
fn build_file_entries_sorted_with_stats() {
    let raw = vec![
        ("zzz.txt".to_string(), StatusFlags { wt_new: true, ..flags() }),
        ("hello.txt".to_string(), StatusFlags { wt_modified: true, ..flags() }),
        ("aaa.txt".to_string(), StatusFlags { index_new: true, ..flags() }),
    ];
    let staged = vec![stats("aaa.txt", 1, 0)];
    let unstaged = vec![stats("hello.txt", 3, 1), stats("hello.txt", 1, 0)];
    let es = build_file_entries(&raw, &staged, &unstaged);
    let order: Vec<(&str, FileStatus)> = es.iter().map(|e| (e.path.as_str(), e.status)).collect();
    assert_eq!(
        order,
        vec![
            ("hello.txt", FileStatus::Unstaged(ChangeKind::Modified)),
            ("aaa.txt", FileStatus::Staged(ChangeKind::Added)),
            ("zzz.txt", FileStatus::Untracked),
        ]
    );
    assert_eq!((es[0].insertions, es[0].deletions), (1, 0));
    assert_eq!((es[1].insertions, es[1].deletions), (1, 0));
    assert_eq!((es[2].insertions, es[2].deletions), (0, 0));
}

#[test]
fn sort_entries_by_section_then_path() {
    let mk = |p: &str, s: FileStatus| FileEntry { path: p.to_string(), status: s, insertions: 0, deletions: 0 };
    let v = vec![
        mk("b", FileStatus::Untracked),
        mk("b", FileStatus::Conflict),
        mk("a", FileStatus::Untracked),
        mk("B", FileStatus::Conflict),
    ];
    let r = sort_entries(v);
    let paths: Vec<&str> = r.iter().map(|e| e.path.as_str()).collect();
    assert_eq!(paths, vec!["B", "b", "a", "b"]);
}
