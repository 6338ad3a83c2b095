use stage_rs::conflict::{parse_conflicts, ConflictResolution, ConflictState};

#[test]
fn test_parse_conflicts_no_conflicts() {
    assert!(parse_conflicts("normal file content\nno conflicts here\n").is_none());
}

#[test]
fn test_parse_conflicts_single_conflict() {
    let content =
        "before\n<<<<<<< HEAD\nours line\n=======\ntheirs line\n>>>>>>> branch\nafter\n";
    let parsed = parse_conflicts(content).unwrap();
    assert_eq!(parsed.prefix, vec!["before"]);
    assert_eq!(parsed.sections.len(), 1);
    assert_eq!(parsed.sections[0].ours, vec!["ours line"]);
    assert_eq!(parsed.sections[0].theirs, vec!["theirs line"]);
    assert_eq!(parsed.sections[0].resolution, ConflictResolution::Unresolved);
    assert_eq!(parsed.sections[0].suffix, vec!["after"]);
    assert_eq!(parsed.left_name, "HEAD");
    assert_eq!(parsed.right_name, "branch");
}

#[test]
fn test_parse_conflicts_multiple_conflicts() {
    let content = "\
prefix line
<<<<<<< HEAD
ours1
=======
theirs1
>>>>>>> feature-branch
middle
<<<<<<< HEAD
ours2
=======
theirs2
>>>>>>> feature-branch
end";
    let parsed = parse_conflicts(content).unwrap();
    assert_eq!(parsed.prefix, vec!["prefix line"]);
    assert_eq!(parsed.left_name, "HEAD");
    assert_eq!(parsed.right_name, "feature-branch");
    assert_eq!(parsed.sections.len(), 2);
    assert_eq!(parsed.sections[0].ours, vec!["ours1"]);
    assert_eq!(parsed.sections[0].theirs, vec!["theirs1"]);
    assert_eq!(parsed.sections[0].suffix, vec!["middle"]);
    assert_eq!(parsed.sections[1].ours, vec!["ours2"]);
    assert_eq!(parsed.sections[1].theirs, vec!["theirs2"]);
    assert_eq!(parsed.sections[1].suffix, vec!["end"]);
}

#[test]
fn test_parse_conflicts_multi_line_sides() {
    let content = "<<<<<<< HEAD\nour line 1\nour line 2\n=======\ntheir line 1\ntheir line 2\ntheir line 3\n>>>>>>> branch\n";
    let parsed = parse_conflicts(content).unwrap();
    assert!(parsed.prefix.is_empty());
    assert_eq!(parsed.sections[0].ours, vec!["our line 1", "our line 2"]);
    assert_eq!(
        parsed.sections[0].theirs,
        vec!["their line 1", "their line 2", "their line 3"]
    );
}

#[test]
fn test_parse_conflicts_empty_sides() {
    let content = "<<<<<<< HEAD\n=======\ntheirs\n>>>>>>> branch\n";
    let parsed = parse_conflicts(content).unwrap();
    assert!(parsed.sections[0].ours.is_empty());
    assert_eq!(parsed.sections[0].theirs, vec!["theirs"]);
}

fn two_section_state() -> ConflictState {
    let content = "top\n<<<<<<< ours-br\na1\n=======\nb1\n>>>>>>> theirs-br\nmid\n<<<<<<< ours-br\na2\n=======\nb2\n>>>>>>> theirs-br\nend\n";
    ConflictState::from_parsed("f.txt".to_string(), parse_conflicts(content).unwrap())
}

#[test]
fn resolved_content_keeps_picked_lines() {
    let mut cs = two_section_state();
    assert_eq!(cs.unresolved_count(), 2);
    assert_eq!(cs.pick(ConflictResolution::Ours), "ours-br");
    cs.next_section();
    assert_eq!(cs.current_section, 1);
    assert_eq!(cs.pick(ConflictResolution::Both), "both");
    assert_eq!(cs.unresolved_count(), 0);
    assert_eq!(cs.resolved_content(), "top\na1\nmid\na2\nb2\nend\n");
}

#[test]
fn resolved_content_theirs_and_unresolved() {
    let mut cs = two_section_state();
    assert_eq!(cs.pick(ConflictResolution::Theirs), "theirs-br");
    assert_eq!(cs.unresolved_count(), 1);
    // an unresolved section contributes no lines
    assert_eq!(cs.resolved_content(), "top\nb1\nmid\nend\n");
}

#[test]
fn section_navigation_stays_in_range() {
    let mut cs = two_section_state();
    cs.prev_section();
    assert_eq!(cs.current_section, 0);
    cs.next_section();
    cs.next_section();
    assert_eq!(cs.current_section, 1);
}

#[test]
fn conflict_without_names_uses_defaults() {
    let parsed = parse_conflicts("<<<<<<<\nx\n=======\ny\n>>>>>>>\n").unwrap();
    assert_eq!(parsed.sections.len(), 1);
    assert_eq!(parsed.sections[0].ours, vec!["x"]);
    assert_eq!(parsed.sections[0].theirs, vec!["y"]);
    assert_eq!(parsed.left_name, "left");
    assert_eq!(parsed.right_name, "right");
}

#[test]
fn parsing_keeps_every_content_line_in_order() {
    let content = "a\n<<<<<<< HEAD\nb\nc\n=======\nd\n>>>>>>> x\ne\n<<<<<<< HEAD\n=======\nf\n>>>>>>> y\ng\nh\n";
    let parsed = parse_conflicts(content).unwrap();
    assert_eq!(parsed.sections.len(), 2);
    assert_eq!(parsed.sections[0].ours, vec!["b".to_string(), "c".to_string()]);
    assert_eq!(parsed.sections[0].theirs, vec!["d".to_string()]);
    assert_eq!(parsed.sections[0].suffix, vec!["e".to_string()]);
    assert!(parsed.sections[1].ours.is_empty());
    assert_eq!(parsed.sections[1].theirs, vec!["f".to_string()]);
    assert_eq!(parsed.sections[1].suffix, vec!["g".to_string(), "h".to_string()]);
    let mut lines: Vec<String> = parsed.prefix.clone();
    for s in &parsed.sections {
        lines.extend(s.ours.iter().cloned());
        lines.extend(s.theirs.iter().cloned());
        lines.extend(s.suffix.iter().cloned());
    }
    let expected: Vec<String> = content
        .lines()
        .filter(|l| !(l.starts_with("<<<<<<<") || l.starts_with("=======") || l.starts_with(">>>>>>>")))
        .map(|l| l.to_string())
        .collect();
    assert_eq!(lines, expected);
}

#[test]
fn an_unclosed_block_keeps_its_lines_and_default_right_name() {
    let parsed = parse_conflicts("<<<<<<< HEAD\nours\n").unwrap();
    assert_eq!(parsed.sections.len(), 1);
    assert_eq!(parsed.sections[0].ours, vec!["ours".to_string()]);
    assert!(parsed.sections[0].theirs.is_empty());
    assert!(parsed.sections[0].suffix.is_empty());
    assert_eq!(parsed.left_name, "HEAD");
    assert_eq!(parsed.right_name, "right");
}
