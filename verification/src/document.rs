use crate::error::ChangelogError;
use crate::text::{first_token, leading_token};
use crate::version::{parse_semver, semver_version, Version, VersionModel};
use comrak::nodes::NodeValue;
use comrak::{format_commonmark, parse_document, Arena, Options};
use vstd::prelude::*;

verus! {

/// What one node of a parsed document is, as far as the changelog rules read it.
#[derive(Clone, Debug, PartialEq, Eq)]
pub enum NodeKind {
    /// A heading, with its level.
    Heading(u8),
    /// A run of plain text.
    Text(String),
    /// An inline code span.
    Code(String),
    /// Any other node.
    Other,
}

/// A top-level block of a document.
#[derive(Clone, Debug, PartialEq, Eq)]
pub struct Block {
    /// The block's own node first, then all its descendants in document order.
    pub nodes: Vec<NodeKind>,
    /// The block written back as CommonMark.
    pub rendered: String,
}

/// The mathematical value of a [`NodeKind`].
pub enum NodeModel {
    Heading(u8),
    Text(Seq<char>),
    Code(Seq<char>),
    Other,
}

/// The mathematical value of a [`Block`].
pub struct BlockModel {
    pub nodes: Seq<NodeModel>,
    pub rendered: Seq<char>,
}

impl View for NodeKind {
    type V = NodeModel;

    open spec fn view(&self) -> NodeModel {
        match self {
            NodeKind::Heading(level) => NodeModel::Heading(*level),
            NodeKind::Text(literal) => NodeModel::Text(literal@),
            NodeKind::Code(literal) => NodeModel::Code(literal@),
            NodeKind::Other => NodeModel::Other,
        }
    }
}

impl View for Block {
    type V = BlockModel;

    open spec fn view(&self) -> BlockModel {
        BlockModel { nodes: self.nodes@.map_values(|n: NodeKind| n@), rendered: self.rendered@ }
    }
}

/// The values of a sequence of blocks.
pub open spec fn blocks_view(blocks: Seq<Block>) -> Seq<BlockModel> {
    blocks.map_values(|b: Block| b@)
}

/// The top-level blocks that `comrak` reads from a text with its default options, each with
/// its nodes and with what `comrak` writes for it as CommonMark; `None` where the formatter
/// reports an error or writes bytes that are not UTF-8.
pub uninterp spec fn document_blocks(text: Seq<char>) -> Option<Seq<BlockModel>>;

/// Calls `comrak::parse_document` with the default options and walks the children of the
/// root. For each child it calls `comrak::format_commonmark` and `String::from_utf8` on what
/// was written, and copies from each node that `descendants` yields which of the four kinds
/// it is, with the level or the literal. Trusted: that the outcome depends on the text alone,
/// which is what giving it the name `document_blocks` says. Nothing is claimed of what a
/// text parses to.
#[verifier::external_body]
fn parse_blocks(text: &str) -> (blocks: Option<Vec<Block>>)
    ensures
        match blocks {
            Some(found) => document_blocks(text@) == Some(blocks_view(found@)),
            None => document_blocks(text@) is None,
        },
{
    let arena = Arena::new();
    let options = Options::default();
    let kind = |value: &NodeValue| match value {
        NodeValue::Heading(heading) => NodeKind::Heading(heading.level),
        NodeValue::Text(literal) => NodeKind::Text(literal.clone()),
        NodeValue::Code(code) => NodeKind::Code(code.literal.clone()),
        _ => NodeKind::Other,
    };
    parse_document(&arena, text, &options).children().map(|block| {
        let mut bytes = Vec::new();
        format_commonmark(block, &options, &mut bytes).ok()?;
        let nodes = block.descendants().map(|node| kind(&node.data.borrow().value)).collect();
        Some(Block { nodes, rendered: String::from_utf8(bytes).ok()? })
    }).collect()
}

/// Reads a Markdown text into its top-level blocks.
pub fn read_document(text: &str) -> (r: Result<Vec<Block>, ChangelogError>)
    ensures
        match r {
            Ok(blocks) => document_blocks(text@) == Some(blocks_view(blocks@)),
            Err(e) => e == ChangelogError::Render && document_blocks(text@) is None,
        },
{
    match parse_blocks(text) {
        Some(blocks) => Ok(blocks),
        None => Err(ChangelogError::Render),
    }
}

/// A version found in a heading, with the token that it was read from.
#[derive(Clone, Debug, PartialEq, Eq)]
pub struct VersionTitle {
    pub version: Version,
    /// The token as it stands in the heading; read as a range expression, it says which
    /// versions the heading's section may be merged into.
    pub range: String,
}

/// The mathematical value of a [`VersionTitle`].
pub struct VersionTitleModel {
    pub version: VersionModel,
    pub range: Seq<char>,
}

impl View for VersionTitle {
    type V = VersionTitleModel;

    open spec fn view(&self) -> VersionTitleModel {
        VersionTitleModel { version: self.version@, range: self.range@ }
    }
}

/// The version that a single node gives: that of the first token of a text or code node,
/// where this token is a semantic version.
pub open spec fn node_version(node: NodeModel) -> Option<VersionTitleModel> {
    match node {
        NodeModel::Text(literal) | NodeModel::Code(literal) => match first_token(literal) {
            Some(token) => match semver_version(token) {
                Some(version) => Some(VersionTitleModel { version, range: token }),
                None => None,
            },
            None => None,
        },
        _ => None,
    }
}

/// The version of the first node at or after `from` that gives one.
pub open spec fn pick_version_from(nodes: Seq<NodeModel>, from: int) -> Option<VersionTitleModel>
    decreases nodes.len() - from,
{
    if 0 <= from < nodes.len() {
        match node_version(nodes[from]) {
            Some(found) => Some(found),
            None => pick_version_from(nodes, from + 1),
        }
    } else {
        None
    }
}

/// The level of the heading that a block is, `None` for a block that is no heading.
pub open spec fn level_of(block: BlockModel) -> Option<u8> {
    if block.nodes.len() > 0 {
        match block.nodes[0] {
            NodeModel::Heading(level) => Some(level),
            _ => None,
        }
    } else {
        None
    }
}

/// The version that a block names as a heading of level 2.
pub open spec fn title_of(block: BlockModel) -> Option<VersionTitleModel> {
    if level_of(block) == Some(2u8) {
        pick_version_from(block.nodes, 0)
    } else {
        None
    }
}

/// The version that one node gives.
fn version_of_node(node: &NodeKind) -> (r: Option<VersionTitle>)
    ensures
        match r {
            Some(found) => node_version(node@) == Some(found@),
            None => node_version(node@) is None,
        },
{
    match node {
        NodeKind::Text(literal) | NodeKind::Code(literal) => {
            match leading_token(literal.as_str()) {
                Some(token) => match parse_semver(token.as_str()) {
                    Some(version) => Some(VersionTitle { version, range: token }),
                    None => None,
                },
                None => None,
            }
        },
        _ => None,
    }
}

/// Searches the nodes of a block, in document order, for the first text or code node whose
/// first token is a semantic version.
pub fn pick_version(block: &Block) -> (r: Option<VersionTitle>)
    ensures
        match r {
            Some(found) => pick_version_from(block@.nodes, 0) == Some(found@),
            None => pick_version_from(block@.nodes, 0) is None,
        },
{
    let mut i: usize = 0;
    while i < block.nodes.len()
        invariant
            i <= block.nodes.len(),
            block@.nodes.len() == block.nodes.len(),
            pick_version_from(block@.nodes, 0) == pick_version_from(block@.nodes, i as int),
        decreases block.nodes.len() - i,
    {
        assert(block@.nodes[i as int] == block.nodes[i as int]@);
        match version_of_node(&block.nodes[i]) {
            Some(found) => {
                return Some(found);
            },
            None => {},
        }
        i += 1;
    }
    None
}

/// The level of the heading that a block is.
pub fn heading_level(block: &Block) -> (r: Option<u8>)
    ensures
        r == level_of(block@),
{
    if block.nodes.len() > 0 {
        match &block.nodes[0] {
            NodeKind::Heading(level) => Some(*level),
            _ => None,
        }
    } else {
        None
    }
}

/// The version that a block names, where the block is a heading of level 2.
pub fn version_title(block: &Block) -> (r: Option<VersionTitle>)
    ensures
        match r {
            Some(found) => title_of(block@) == Some(found@),
            None => title_of(block@) is None,
        },
{
    match heading_level(block) {
        Some(level) => if level == 2 {
            pick_version(block)
        } else {
            None
        },
        None => None,
    }
}

} // verus!
