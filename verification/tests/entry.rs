use rclog::entry::{entries_for_extract, entries_for_merge, role_for_extract, role_for_merge};
use rclog::{Block, Entry, NodeKind, Role, Version};

fn heading(level: u8, text: &str) -> Block {
    Block {
        nodes: vec![NodeKind::Heading(level), NodeKind::Text(text.to_string())],
        rendered: format!("{} {}\n", "#".repeat(level as usize), text),
    }
}

fn paragraph(text: &str) -> Block {
    Block {
        nodes: vec![NodeKind::Other, NodeKind::Text(text.to_string())],
        rendered: format!("{}\n", text),
    }
}

#[test]
fn role_levels() {
    assert!(Role::Target.is_section_terminator());
    assert!(Role::Superseded.is_section_terminator());
    assert!(Role::Heading(0).is_section_terminator());
    assert!(Role::Heading(1).is_section_terminator());
    assert!(Role::Heading(2).is_section_terminator());
    assert!(!Role::Heading(3).is_section_terminator());
    assert!(!Role::Heading(6).is_section_terminator());
    assert!(!Role::Body.is_section_terminator());
}

#[test]
fn role_subsections() {
    assert!(Role::Heading(3).is_subsection_heading());
    for role in [Role::Target, Role::Superseded, Role::Heading(2), Role::Heading(4), Role::Body] {
        assert!(!role.is_subsection_heading());
    }
    for role in [Role::Target, Role::Superseded, Role::Heading(1), Role::Heading(2)] {
        assert!(role.is_subsection_terminator());
    }
    for role in [Role::Heading(3), Role::Heading(4), Role::Body] {
        assert!(!role.is_subsection_terminator());
    }
}

#[test]
fn extract_role_marks_only_the_exact_version() {
    let target = Version::parse("0.1.0").unwrap();
    assert_eq!(role_for_extract(&heading(2, "0.1.0 - 2024-01-03"), &target), Role::Target);
    assert_eq!(role_for_extract(&heading(2, "0.1.0-alpha.1"), &target), Role::Heading(2));
    assert_eq!(role_for_extract(&heading(2, "0.1.0+build"), &target), Role::Heading(2));
    assert_eq!(role_for_extract(&heading(2, "Unreleased"), &target), Role::Heading(2));
    assert_eq!(role_for_extract(&heading(1, "0.1.0"), &target), Role::Heading(1));
    assert_eq!(role_for_extract(&heading(3, "0.1.0"), &target), Role::Heading(3));
    assert_eq!(role_for_extract(&paragraph("0.1.0"), &target), Role::Body);
}

#[test]
fn merge_role_tells_target_from_superseded() {
    let target = Version::parse("0.1.0").unwrap();
    assert_eq!(role_for_merge(&heading(2, "0.1.0 - 2024-01-03"), &target), Role::Target);
    assert_eq!(role_for_merge(&heading(2, "0.1.0-alpha.2"), &target), Role::Superseded);
    assert_eq!(role_for_merge(&heading(2, "0.1.0-alpha.1"), &target), Role::Superseded);
    assert_eq!(role_for_merge(&heading(2, "0.1.3"), &target), Role::Heading(2));
    assert_eq!(role_for_merge(&heading(2, "0.0.9"), &target), Role::Heading(2));
    assert_eq!(role_for_merge(&heading(2, "Unreleased"), &target), Role::Heading(2));
    assert_eq!(role_for_merge(&heading(3, "0.1.0"), &target), Role::Heading(3));
    assert_eq!(role_for_merge(&heading(1, "0.1.0-alpha.1"), &target), Role::Heading(1));
    assert_eq!(role_for_merge(&paragraph("0.1.0-alpha.1"), &target), Role::Body);
}

#[test]
fn merge_role_takes_earlier_versions_of_a_compatible_range() {
    let target = Version::parse("0.1.3").unwrap();
    assert_eq!(role_for_merge(&heading(2, "0.1.3"), &target), Role::Target);
    assert_eq!(role_for_merge(&heading(2, "0.1.2"), &target), Role::Superseded);
    assert_eq!(role_for_merge(&heading(2, "0.1.4"), &target), Role::Heading(2));
    assert_eq!(role_for_merge(&heading(2, "0.2.0"), &target), Role::Heading(2));
}

#[test]
fn merge_role_of_a_version_with_build_metadata() {
    let target = Version::parse("1.0.0").unwrap();
    assert_eq!(role_for_merge(&heading(2, "1.0.0+build.1"), &target), Role::Superseded);
    let target = Version::parse("1.0.0+build.1").unwrap();
    assert_eq!(role_for_merge(&heading(2, "1.0.0+build.1"), &target), Role::Target);
    assert_eq!(role_for_merge(&heading(2, "1.0.0"), &target), Role::Superseded);
}

#[test]
fn entries_keep_order_and_text() {
    let blocks = vec![heading(1, "Log"), heading(2, "1.0.0"), paragraph("body"), heading(2, "1.0.0-rc.1")];
    let target = Version::parse("1.0.0").unwrap();
    assert_eq!(
        entries_for_extract(&blocks, &target),
        vec![
            Entry { role: Role::Heading(1), text: "# Log\n".to_string() },
            Entry { role: Role::Target, text: "## 1.0.0\n".to_string() },
            Entry { role: Role::Body, text: "body\n".to_string() },
            Entry { role: Role::Heading(2), text: "## 1.0.0-rc.1\n".to_string() },
        ]
    );
    assert_eq!(
        entries_for_merge(&blocks, &target),
        vec![
            Entry { role: Role::Heading(1), text: "# Log\n".to_string() },
            Entry { role: Role::Target, text: "## 1.0.0\n".to_string() },
            Entry { role: Role::Body, text: "body\n".to_string() },
            Entry { role: Role::Superseded, text: "## 1.0.0-rc.1\n".to_string() },
        ]
    );
    assert_eq!(entries_for_extract(&vec![], &target), vec![]);
}
