use crate::assemble::{assemble, assembled, finished};
use crate::document::{blocks_view, document_blocks, read_document, title_of, Block, BlockModel};
use crate::entry::{entries_for_merge, entries_view, merge_entries_of, Entry, EntryModel, Role};
use crate::error::ChangelogError;
use crate::extract::{lemma_target_from, names_target, result_is, target_from};
use crate::segment::{scan_error, segment, segmentation};
use crate::version::{semver_admits, Version, VersionModel};
use vstd::prelude::*;

verus! {

/// What merging gives for the entries of a document.
pub open spec fn merging(entries: Seq<EntryModel>) -> Result<Seq<char>, ChangelogError> {
    match scan_error(entries) {
        Some(e) => Err(e),
        None => finished(assembled(entries, segmentation(entries))),
    }
}

/// What merging the pre-release sections into that of `target` gives for a changelog.
pub open spec fn merged(target: VersionModel, changelog: Seq<char>) -> Result<
    Seq<char>,
    ChangelogError,
> {
    match document_blocks(changelog) {
        Some(blocks) => merging(merge_entries_of(blocks, target)),
        None => Err(ChangelogError::Render),
    }
}

/// Merges, in the entries of a document, the sections of the superseded versions into the
/// section of the target.
pub fn merge_entries(entries: &Vec<Entry>) -> (r: Result<String, ChangelogError>)
    ensures
        result_is(r, merging(entries_view(entries@))),
{
    match segment(entries) {
        Ok(seg) => assemble(entries, &seg),
        Err(e) => Err(e),
    }
}

/// Merges, in the top-level blocks of a document, the sections of the versions whose range
/// admits `version` into the section of `version`.
pub fn merge_blocks(version: &Version, blocks: &Vec<Block>) -> (r: Result<String, ChangelogError>)
    ensures
        result_is(r, merging(merge_entries_of(blocks_view(blocks@), version@))),
{
    let entries = entries_for_merge(blocks, version);
    merge_entries(&entries)
}

/// Merges the changelogs of the pre-release versions into that of the more stable version
/// that follows them. Where the changelog holds sections for `0.1.0-alpha.1` and
/// `0.1.0-alpha.2` and the version given is `0.1.0`, the blocks of both sections move into
/// the section of `0.1.0`, subsection by subsection.
pub fn merge_pre_release_changelogs(version: &Version, content: &str) -> (r: Result<
    String,
    ChangelogError,
>)
    ensures
        result_is(r, merged(version@, content@)),
{
    match read_document(content) {
        Ok(blocks) => merge_blocks(version, &blocks),
        Err(e) => Err(e),
    }
}

/// Whether a block is a heading of level 2 with a version whose range admits the target.
pub open spec fn in_range(block: BlockModel, target: VersionModel) -> bool {
    match title_of(block) {
        Some(title) => semver_admits(title.range, target) == Some(true),
        None => false,
    }
}

/// Whether a block is the heading that merging keeps: its range admits the target and its
/// version is the target.
pub open spec fn is_target_heading(block: BlockModel, target: VersionModel) -> bool {
    in_range(block, target) && names_target(block, target)
}

/// Merging fails for want of a version heading where no heading is the target's; so it does
/// where no heading's range admits the target.
pub proof fn law_merge_needs_the_target_heading(blocks: Seq<BlockModel>, target: VersionModel)
    requires
        forall|i: int| 0 <= i < blocks.len() ==> !is_target_heading(#[trigger] blocks[i], target),
    ensures
        merging(merge_entries_of(blocks, target)) == Err::<Seq<char>, ChangelogError>(
            ChangelogError::NoVersionHeadingFound,
        ),
{
    let entries = merge_entries_of(blocks, target);
    lemma_target_from(entries, 0);
    let first = target_from(entries, 0);
    if first < entries.len() {
        assert(is_target_heading(blocks[first], target));
    }
}

/// Merging fails where two headings are the target's.
pub proof fn law_merge_refuses_two_target_headings(
    blocks: Seq<BlockModel>,
    target: VersionModel,
    a: int,
    b: int,
)
    requires
        0 <= a < b < blocks.len(),
        is_target_heading(blocks[a], target),
        is_target_heading(blocks[b], target),
    ensures
        merging(merge_entries_of(blocks, target)) == Err::<Seq<char>, ChangelogError>(
            ChangelogError::MultipleVersionHeadings,
        ),
{
    let entries = merge_entries_of(blocks, target);
    assert(entries[a].role == Role::Target);
    assert(entries[b].role == Role::Target);
    lemma_target_from(entries, 0);
    let first = target_from(entries, 0);
    assert(first <= a);
    lemma_target_from(entries, first + 1);
    assert(target_from(entries, first + 1) <= b);
}

/// Merging twice for the same version and text gives the same result.
pub proof fn law_merge_is_deterministic(
    target: VersionModel,
    changelog: Seq<char>,
    first: Result<String, ChangelogError>,
    second: Result<String, ChangelogError>,
)
    requires
        result_is(first, merged(target, changelog)),
        result_is(second, merged(target, changelog)),
    ensures
        match (first, second) {
            (Ok(a), Ok(b)) => a@ == b@,
            (Err(a), Err(b)) => a == b,
            _ => false,
        },
{
}

} // verus!
