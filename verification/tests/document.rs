use rclog::document::{heading_level, pick_version, read_document, version_title};
use rclog::{Block, NodeKind, Version, VersionTitle};

fn text(s: &str) -> NodeKind {
    NodeKind::Text(s.to_string())
}

fn code(s: &str) -> NodeKind {
    NodeKind::Code(s.to_string())
}

fn block(nodes: Vec<NodeKind>) -> Block {
    Block { nodes, rendered: String::new() }
}

fn title(version: &str) -> Option<VersionTitle> {
    Some(VersionTitle { version: Version::parse(version).unwrap(), range: version.to_string() })
}

#[test]
fn read_document_gives_the_top_level_blocks() {
    let blocks = read_document(
        "# Changelog\n\nintro *text* `0.0.1` here\n\n## [0.1.2] - 2024-01-02\n\n### Features\n\n- version [0.1.2]\n- second\n\n[0.1.2]: ribir.org\n",
    )
    .unwrap();
    assert_eq!(
        blocks,
        vec![
            Block {
                nodes: vec![NodeKind::Heading(1), text("Changelog")],
                rendered: "# Changelog\n".to_string(),
            },
            Block {
                nodes: vec![
                    NodeKind::Other,
                    text("intro "),
                    NodeKind::Other,
                    text("text"),
                    text(" "),
                    code("0.0.1"),
                    text(" here"),
                ],
                rendered: "intro *text* `0.0.1` here\n".to_string(),
            },
            Block {
                nodes: vec![NodeKind::Heading(2), NodeKind::Other, text("0.1.2"), text(" - 2024-01-02")],
                rendered: "## [0.1.2](ribir.org) - 2024-01-02\n".to_string(),
            },
            Block {
                nodes: vec![NodeKind::Heading(3), text("Features")],
                rendered: "### Features\n".to_string(),
            },
            Block {
                nodes: vec![
                    NodeKind::Other,
                    NodeKind::Other,
                    NodeKind::Other,
                    text("version "),
                    NodeKind::Other,
                    text("0.1.2"),
                    NodeKind::Other,
                    NodeKind::Other,
                    text("second"),
                ],
                rendered: "- version [0.1.2](ribir.org)\n- second\n".to_string(),
            },
        ]
    );
}

#[test]
fn read_document_reads_setext_headings_and_escapes() {
    let blocks = read_document("## [0.1.3] none\n\nSetext 3.0.0\n------------\n\n##   9.9.9\tTab\n").unwrap();
    assert_eq!(
        blocks,
        vec![
            Block {
                nodes: vec![NodeKind::Heading(2), text("[0.1.3] none")],
                rendered: "## \\[0.1.3\\] none\n".to_string(),
            },
            Block {
                nodes: vec![NodeKind::Heading(2), text("Setext 3.0.0")],
                rendered: "## Setext 3.0.0\n".to_string(),
            },
            Block {
                nodes: vec![NodeKind::Heading(2), text("9.9.9\tTab")],
                rendered: "## 9.9.9&#9;Tab\n".to_string(),
            },
        ]
    );
}

#[test]
fn read_document_of_an_empty_text_has_no_block() {
    assert_eq!(read_document(""), Ok(vec![]));
    assert_eq!(read_document("\n\n"), Ok(vec![]));
}

#[test]
fn read_document_does_not_hand_the_text_back() {
    let blocks = read_document("*a*\n\n*b*").unwrap();
    assert_eq!(blocks.len(), 2);
    assert_eq!(blocks[0].rendered, "*a*\n");
    assert_eq!(blocks[1].rendered, "*b*\n");
}

#[test]
fn heading_level_reads_the_first_node() {
    assert_eq!(heading_level(&block(vec![NodeKind::Heading(2), text("x")])), Some(2));
    assert_eq!(heading_level(&block(vec![NodeKind::Heading(6)])), Some(6));
    assert_eq!(heading_level(&block(vec![NodeKind::Other, NodeKind::Heading(2)])), None);
    assert_eq!(heading_level(&block(vec![text("2.0.0")])), None);
    assert_eq!(heading_level(&block(vec![])), None);
}

#[test]
fn pick_version_reads_a_text_node() {
    let b = block(vec![NodeKind::Heading(2), text("0.1.0 - 2024-01-03")]);
    assert_eq!(pick_version(&b), title("0.1.0"));
}

#[test]
fn pick_version_reads_a_code_node() {
    let b = block(vec![NodeKind::Heading(2), code("1.0.0-rc.1+build.5"), text(" extra")]);
    assert_eq!(pick_version(&b), title("1.0.0-rc.1+build.5"));
}

#[test]
fn pick_version_reads_nested_nodes_in_document_order() {
    let b = block(vec![
        NodeKind::Heading(2),
        text("Release"),
        NodeKind::Other,
        NodeKind::Other,
        text("2.0.0"),
        text(" and "),
        code("1.0.0"),
    ]);
    assert_eq!(pick_version(&b), title("2.0.0"));
}

#[test]
fn pick_version_reads_only_the_first_token_of_a_node() {
    assert_eq!(pick_version(&block(vec![NodeKind::Heading(2), text("see 1.0.0")])), None);
    assert_eq!(pick_version(&block(vec![text("   "), text("\n1.2.3\n")])), title("1.2.3"));
}

#[test]
fn pick_version_finds_none_without_a_version() {
    assert_eq!(pick_version(&block(vec![])), None);
    assert_eq!(pick_version(&block(vec![NodeKind::Heading(2), text("Unreleased")])), None);
    assert_eq!(pick_version(&block(vec![NodeKind::Heading(2), text("[0.1.3] - 2024-01-03")])), None);
    assert_eq!(pick_version(&block(vec![NodeKind::Other, NodeKind::Heading(2)])), None);
}

#[test]
fn version_title_asks_for_level_2() {
    for level in [0u8, 1, 3, 4, 5, 6] {
        assert_eq!(version_title(&block(vec![NodeKind::Heading(level), text("1.0.0")])), None);
    }
    assert_eq!(version_title(&block(vec![NodeKind::Heading(2), text("1.0.0")])), title("1.0.0"));
    assert_eq!(version_title(&block(vec![NodeKind::Other, text("1.0.0")])), None);
    assert_eq!(version_title(&block(vec![text("1.0.0")])), None);
}

#[test]
fn version_title_of_parsed_headings() {
    let blocks = read_document(
        "## [0.1.2] - 2024-01-02\n\n## [0.1.3] none\n\n##   9.9.9\tTab\n\n### 1.0.0\n\n1.0.0\n\n## `1.0.0-rc.1` x\n\n## **2.0.0** bold\n\n[0.1.2]: ribir.org\n",
    )
    .unwrap();
    let found: Vec<Option<VersionTitle>> = blocks.iter().map(version_title).collect();
    assert_eq!(
        found,
        vec![title("0.1.2"), None, title("9.9.9"), None, None, title("1.0.0-rc.1"), title("2.0.0")]
    );
}
