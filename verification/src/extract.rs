use crate::document::{
    blocks_view, document_blocks, level_of, read_document, title_of, Block, BlockModel,
};
use crate::entry::{
    entries_for_extract, entries_view, extract_entries_of, Entry, EntryModel, Role,
};
use crate::error::ChangelogError;
use crate::version::{Version, VersionModel};
use vstd::prelude::*;
use vstd::string::StringExecFns;

verus! {

/// The first position at or after `from` that holds the target's heading, or the number of
/// entries.
pub open spec fn target_from(entries: Seq<EntryModel>, from: int) -> int
    decreases entries.len() - from,
{
    if 0 <= from < entries.len() && entries[from].role != Role::Target {
        target_from(entries, from + 1)
    } else {
        from
    }
}

/// The first position at or after `from` that holds a heading of level 2 or above it, or the
/// number of entries.
pub open spec fn section_end(entries: Seq<EntryModel>, from: int) -> int
    decreases entries.len() - from,
{
    if 0 <= from < entries.len() && !entries[from].role.ends_section() {
        section_end(entries, from + 1)
    } else {
        from
    }
}

/// The texts of the entries from `from` up to, not including, `to`, one after the other.
pub open spec fn joined(entries: Seq<EntryModel>, from: int, to: int) -> Seq<char>
    decreases to - from,
{
    if 0 <= from < to <= entries.len() {
        joined(entries, from, to - 1) + entries[to - 1].text
    } else {
        Seq::empty()
    }
}

/// What picking out the target's section gives: the text of the blocks between the first
/// heading of the target and the next heading of level 2 or above it.
pub open spec fn extraction(entries: Seq<EntryModel>) -> Result<Seq<char>, ChangelogError> {
    let start = target_from(entries, 0);
    if start >= entries.len() {
        Err(ChangelogError::NoContentFound)
    } else {
        let body = joined(entries, start + 1, section_end(entries, start + 1));
        if body.len() == 0 {
            Err(ChangelogError::NoContentFound)
        } else {
            Ok(body)
        }
    }
}

/// What picking out the section of `target` from a changelog gives.
pub open spec fn extracted(target: VersionModel, changelog: Seq<char>) -> Result<
    Seq<char>,
    ChangelogError,
> {
    match document_blocks(changelog) {
        Some(blocks) => extraction(extract_entries_of(blocks, target)),
        None => Err(ChangelogError::Render),
    }
}

/// Whether a result is the one that a specification gives.
pub open spec fn result_is(
    r: Result<String, ChangelogError>,
    expected: Result<Seq<char>, ChangelogError>,
) -> bool {
    match r {
        Ok(text) => expected == Ok::<Seq<char>, ChangelogError>(text@),
        Err(e) => expected == Err::<Seq<char>, ChangelogError>(e),
    }
}

/// Picks out the section of the target version from the entries of a document.
pub fn extract_entries(entries: &Vec<Entry>) -> (r: Result<String, ChangelogError>)
    ensures
        result_is(r, extraction(entries_view(entries@))),
{
    let ghost model = entries_view(entries@);
    let n = entries.len();
    let mut start: usize = 0;
    while start < n && entries[start].role != Role::Target
        invariant
            n == entries.len(),
            model == entries_view(entries@),
            start <= n,
            target_from(model, 0) == target_from(model, start as int),
        decreases n - start,
    {
        start += 1;
    }
    if start == n {
        return Err(ChangelogError::NoContentFound);
    }
    let mut body = String::new();
    let mut end: usize = start + 1;
    while end < n && !entries[end].role.is_section_terminator()
        invariant
            n == entries.len(),
            model == entries_view(entries@),
            start < end <= n,
            section_end(model, start + 1) == section_end(model, end as int),
            body@ == joined(model, start + 1, end as int),
        decreases n - end,
    {
        body.append(entries[end].text.as_str());
        end += 1;
    }
    if body.as_str().is_empty() {
        Err(ChangelogError::NoContentFound)
    } else {
        Ok(body)
    }
}

/// Picks out the section of `version` from the top-level blocks of a document.
pub fn extract_blocks(version: &Version, blocks: &Vec<Block>) -> (r: Result<
    String,
    ChangelogError,
>)
    ensures
        result_is(r, extraction(extract_entries_of(blocks_view(blocks@), version@))),
{
    let entries = entries_for_extract(blocks, version);
    extract_entries(&entries)
}

/// Picks the changelog content of the given version: what stands between the first heading
/// of level 2 that names `version` and the next heading of level 1 or 2.
pub fn extract_content(version: &Version, changelog: &str) -> (r: Result<String, ChangelogError>)
    ensures
        result_is(r, extracted(version@, changelog@)),
{
    match read_document(changelog) {
        Ok(blocks) => extract_blocks(version, &blocks),
        Err(e) => Err(e),
    }
}

/// Whether a block is a heading of level 2 that names the target version.
pub open spec fn names_target(block: BlockModel, target: VersionModel) -> bool {
    match title_of(block) {
        Some(title) => title.version == target,
        None => false,
    }
}

/// Whether a block is a heading of level 2 or above it.
pub open spec fn is_major_heading(block: BlockModel) -> bool {
    match level_of(block) {
        Some(level) => level <= 2,
        None => false,
    }
}

/// Whether `start` is the first heading of the target and `end` is where its section ends:
/// at the next heading of level 2 or above it, or at the end of the document.
pub open spec fn is_target_section(
    blocks: Seq<BlockModel>,
    target: VersionModel,
    start: int,
    end: int,
) -> bool {
    &&& 0 <= start < end <= blocks.len()
    &&& names_target(blocks[start], target)
    &&& forall|i: int| 0 <= i < start ==> !names_target(#[trigger] blocks[i], target)
    &&& forall|i: int| start < i < end ==> !is_major_heading(#[trigger] blocks[i])
    &&& end < blocks.len() ==> is_major_heading(blocks[end])
}

/// `target_from` finds the first heading of the target at or after `from`.
pub proof fn lemma_target_from(entries: Seq<EntryModel>, from: int)
    requires
        0 <= from <= entries.len(),
    ensures
        from <= target_from(entries, from) <= entries.len(),
        forall|i: int|
            from <= i < target_from(entries, from) ==> (#[trigger] entries[i]).role
                != Role::Target,
        target_from(entries, from) < entries.len() ==> entries[target_from(entries, from)].role
            == Role::Target,
    decreases entries.len() - from,
{
    if from < entries.len() && entries[from].role != Role::Target {
        lemma_target_from(entries, from + 1);
    }
}

/// `section_end` finds the first heading of level 2 or above it at or after `from`.
pub proof fn lemma_section_end(entries: Seq<EntryModel>, from: int)
    requires
        0 <= from <= entries.len(),
    ensures
        from <= section_end(entries, from) <= entries.len(),
        forall|i: int|
            from <= i < section_end(entries, from) ==> !(#[trigger] entries[i]).role.ends_section(),
        section_end(entries, from) < entries.len() ==> entries[section_end(
            entries,
            from,
        )].role.ends_section(),
    decreases entries.len() - from,
{
    if from < entries.len() && !entries[from].role.ends_section() {
        lemma_section_end(entries, from + 1);
    }
}

/// What is extracted is the text of the blocks between the first heading that names the
/// target exactly and the next heading of level 2 or above it, or the end of the document,
/// and of no other block. Where no heading names the target, or where these blocks have no
/// text, the extraction fails for want of content.
pub proof fn law_extraction_is_one_section(blocks: Seq<BlockModel>, target: VersionModel)
    ensures
        match extraction(extract_entries_of(blocks, target)) {
            Ok(body) => body.len() > 0 && exists|start: int, end: int|
                #![trigger is_target_section(blocks, target, start, end)]
                is_target_section(blocks, target, start, end) && body == joined(
                    extract_entries_of(blocks, target),
                    start + 1,
                    end,
                ),
            Err(e) => {
                &&& e == ChangelogError::NoContentFound
                &&& (forall|i: int| 0 <= i < blocks.len() ==> !names_target(blocks[i], target))
                    || exists|start: int, end: int|
                    #![trigger is_target_section(blocks, target, start, end)]
                    is_target_section(blocks, target, start, end) && joined(
                        extract_entries_of(blocks, target),
                        start + 1,
                        end,
                    ).len() == 0
            },
        },
{
    let entries = extract_entries_of(blocks, target);
    let start = target_from(entries, 0);
    lemma_target_from(entries, 0);
    assert forall|i: int| 0 <= i < blocks.len() implies (names_target(blocks[i], target) <==> (
    #[trigger] entries[i]).role == Role::Target) && (is_major_heading(blocks[i])
        <==> entries[i].role.ends_section()) by {}
    if start < entries.len() {
        let end = section_end(entries, start + 1);
        lemma_section_end(entries, start + 1);
        assert forall|i: int| 0 <= i < start implies !names_target(
            #[trigger] blocks[i],
            target,
        ) by {
            assert(entries[i].role != Role::Target);
        }
        assert forall|i: int| start < i < end implies !is_major_heading(#[trigger] blocks[i]) by {
            assert(!entries[i].role.ends_section());
        }
        assert(is_target_section(blocks, target, start, end));
    } else {
        assert forall|i: int| 0 <= i < blocks.len() implies !names_target(blocks[i], target) by {
            assert(entries[i].role != Role::Target);
        }
    }
}

/// Extracting twice from the same version and text gives the same result.
pub proof fn law_extract_is_deterministic(
    target: VersionModel,
    changelog: Seq<char>,
    first: Result<String, ChangelogError>,
    second: Result<String, ChangelogError>,
)
    requires
        result_is(first, extracted(target, changelog)),
        result_is(second, extracted(target, changelog)),
    ensures
        match (first, second) {
            (Ok(a), Ok(b)) => a@ == b@,
            (Err(a), Err(b)) => a == b,
            _ => false,
        },
{
}

} // verus!
