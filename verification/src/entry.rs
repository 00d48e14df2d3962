use crate::document::{heading_level, level_of, title_of, version_title, Block, BlockModel};
use crate::version::{admits_semver, semver_admits, Version, VersionModel};
use vstd::prelude::*;

verus! {

/// What a top-level block is to a scan for one target version.
#[derive(Clone, Copy, Debug, PartialEq, Eq, Structural)]
pub enum Role {
    /// The heading of the target version: a heading of level 2 that names it exactly.
    Target,
    /// The heading of a version that the target supersedes: a heading of level 2 that names
    /// another version, one whose range admits the target. Only merging tells it apart.
    Superseded,
    /// Any other heading, with its level.
    Heading(u8),
    /// A block that is no heading.
    Body,
}

impl Role {
    /// The level of the heading, `None` for a block that is no heading.
    pub open spec fn level(self) -> Option<u8> {
        match self {
            Role::Target | Role::Superseded => Some(2u8),
            Role::Heading(level) => Some(level),
            Role::Body => None,
        }
    }

    /// Whether the block is a heading of level 2 or above it, which ends the section of a
    /// version.
    pub open spec fn ends_section(self) -> bool {
        match self.level() {
            Some(level) => level <= 2,
            None => false,
        }
    }

    /// Whether the block is a heading of level 3, which opens a subsection.
    pub open spec fn opens_subsection(self) -> bool {
        self == Role::Heading(3u8)
    }

    /// Whether the block is a heading above level 3, which ends a subsection.
    pub open spec fn ends_subsection(self) -> bool {
        match self.level() {
            Some(level) => level < 3,
            None => false,
        }
    }

    /// Whether the block heads a section that is merged into the target's.
    pub open spec fn heads_run(self) -> bool {
        self == Role::Target || self == Role::Superseded
    }

    /// Whether the block ends the section of a version.
    pub fn is_section_terminator(&self) -> (r: bool)
        ensures
            r == self.ends_section(),
    {
        match self {
            Role::Target | Role::Superseded => true,
            Role::Heading(level) => *level <= 2,
            Role::Body => false,
        }
    }

    /// Whether the block opens a subsection.
    pub fn is_subsection_heading(&self) -> (r: bool)
        ensures
            r == self.opens_subsection(),
    {
        match self {
            Role::Heading(level) => *level == 3,
            _ => false,
        }
    }

    /// Whether the block ends a subsection without opening one.
    pub fn is_subsection_terminator(&self) -> (r: bool)
        ensures
            r == self.ends_subsection(),
    {
        match self {
            Role::Target | Role::Superseded => true,
            Role::Heading(level) => *level < 3,
            Role::Body => false,
        }
    }
}

/// A top-level block as the scans see it: its role and its text.
#[derive(Clone, Debug, PartialEq, Eq)]
pub struct Entry {
    pub role: Role,
    /// The block written back as CommonMark.
    pub text: String,
}

/// The mathematical value of an [`Entry`].
pub struct EntryModel {
    pub role: Role,
    pub text: Seq<char>,
}

impl View for Entry {
    type V = EntryModel;

    open spec fn view(&self) -> EntryModel {
        EntryModel { role: self.role, text: self.text@ }
    }
}

/// The values of a sequence of entries.
pub open spec fn entries_view(entries: Seq<Entry>) -> Seq<EntryModel> {
    entries.map_values(|e: Entry| e@)
}

/// The role of a heading that is not the target's, and of a block that is no heading.
pub open spec fn plain_role(block: BlockModel) -> Role {
    match level_of(block) {
        Some(level) => Role::Heading(level),
        None => Role::Body,
    }
}

/// The role of a block when one version's section is picked out: the target's heading is a
/// heading of level 2 whose version is the target.
pub open spec fn extract_role(block: BlockModel, target: VersionModel) -> Role {
    match title_of(block) {
        Some(title) => if title.version == target {
            Role::Target
        } else {
            plain_role(block)
        },
        None => plain_role(block),
    }
}

/// The role of a block when sections are merged: a heading of level 2 heads a merged section
/// where the token that gave its version, read as a range expression, admits the target.
pub open spec fn merge_role(block: BlockModel, target: VersionModel) -> Role {
    match title_of(block) {
        Some(title) => if semver_admits(title.range, target) == Some(true) {
            if title.version == target {
                Role::Target
            } else {
                Role::Superseded
            }
        } else {
            plain_role(block)
        },
        None => plain_role(block),
    }
}

/// The entries of a document when one version's section is picked out.
pub open spec fn extract_entries_of(blocks: Seq<BlockModel>, target: VersionModel) -> Seq<
    EntryModel,
> {
    blocks.map_values(
        |b: BlockModel| EntryModel { role: extract_role(b, target), text: b.rendered },
    )
}

/// The entries of a document when sections are merged.
pub open spec fn merge_entries_of(blocks: Seq<BlockModel>, target: VersionModel) -> Seq<
    EntryModel,
> {
    blocks.map_values(|b: BlockModel| EntryModel { role: merge_role(b, target), text: b.rendered })
}

fn role_without_title(block: &Block) -> (r: Role)
    ensures
        r == plain_role(block@),
{
    match heading_level(block) {
        Some(level) => Role::Heading(level),
        None => Role::Body,
    }
}

/// The role of a block when the section of `target` is picked out.
pub fn role_for_extract(block: &Block, target: &Version) -> (r: Role)
    ensures
        r == extract_role(block@, target@),
{
    match version_title(block) {
        Some(title) => if title.version.same_as(target) {
            Role::Target
        } else {
            role_without_title(block)
        },
        None => role_without_title(block),
    }
}

/// The role of a block when sections are merged into that of `target`.
pub fn role_for_merge(block: &Block, target: &Version) -> (r: Role)
    ensures
        r == merge_role(block@, target@),
{
    match version_title(block) {
        Some(title) => match admits_semver(title.range.as_str(), target) {
            Some(true) => if title.version.same_as(target) {
                Role::Target
            } else {
                Role::Superseded
            },
            _ => role_without_title(block),
        },
        None => role_without_title(block),
    }
}

/// The entries of a document's blocks when the section of `target` is picked out.
pub fn entries_for_extract(blocks: &Vec<Block>, target: &Version) -> (entries: Vec<Entry>)
    ensures
        entries_view(entries@) == extract_entries_of(
            crate::document::blocks_view(blocks@),
            target@,
        ),
{
    let mut entries: Vec<Entry> = Vec::new();
    let mut i: usize = 0;
    while i < blocks.len()
        invariant
            i <= blocks.len(),
            entries.len() == i,
            forall|k: int|
                0 <= k < i ==> (#[trigger] entries[k])@ == (EntryModel {
                    role: extract_role(blocks[k]@, target@),
                    text: blocks[k]@.rendered,
                }),
        decreases blocks.len() - i,
    {
        let role = role_for_extract(&blocks[i], target);
        entries.push(Entry { role, text: blocks[i].rendered.clone() });
        i += 1;
    }
    assert(entries_view(entries@) =~= extract_entries_of(
        crate::document::blocks_view(blocks@),
        target@,
    ));
    entries
}

/// The entries of a document's blocks when sections are merged into that of `target`.
pub fn entries_for_merge(blocks: &Vec<Block>, target: &Version) -> (entries: Vec<Entry>)
    ensures
        entries_view(entries@) == merge_entries_of(crate::document::blocks_view(blocks@), target@),
{
    let mut entries: Vec<Entry> = Vec::new();
    let mut i: usize = 0;
    while i < blocks.len()
        invariant
            i <= blocks.len(),
            entries.len() == i,
            forall|k: int|
                0 <= k < i ==> (#[trigger] entries[k])@ == (EntryModel {
                    role: merge_role(blocks[k]@, target@),
                    text: blocks[k]@.rendered,
                }),
        decreases blocks.len() - i,
    {
        let role = role_for_merge(&blocks[i], target);
        entries.push(Entry { role, text: blocks[i].rendered.clone() });
        i += 1;
    }
    assert(entries_view(entries@) =~= merge_entries_of(
        crate::document::blocks_view(blocks@),
        target@,
    ));
    entries
}

} // verus!
