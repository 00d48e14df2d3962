use crate::entry::{entries_view, Entry, EntryModel, Role};
use crate::error::ChangelogError;
use crate::extract::{lemma_target_from, target_from};
use vstd::prelude::*;

verus! {

/// Whether the scan, once it has read the first `n` entries, is inside a section that is
/// merged: a heading of the target or of a superseded version opens one, any other heading
/// of level 2 or above it closes it.
pub open spec fn in_run(entries: Seq<EntryModel>, n: int) -> bool
    decreases n,
{
    if 0 < n <= entries.len() {
        let role = entries[n - 1].role;
        if role.heads_run() {
            true
        } else if role.ends_section() {
            false
        } else {
            in_run(entries, n - 1)
        }
    } else {
        false
    }
}

/// The title of the subsection that the scan is in once it has read the first `n` entries:
/// the text of the last heading of level 3 that it met inside a merged section.
pub open spec fn title_after(entries: Seq<EntryModel>, n: int) -> Option<Seq<char>>
    decreases n,
{
    if 0 < n <= entries.len() {
        if in_run(entries, n) && entries[n - 1].role.opens_subsection() {
            Some(entries[n - 1].text)
        } else {
            title_after(entries, n - 1)
        }
    } else {
        None
    }
}

/// Where the scan puts a block.
pub enum Place {
    /// Kept where it stands: a block outside the merged sections, and the target's heading.
    Through,
    /// Left out: the heading of a superseded version.
    Dropped,
    /// Inside a merged section, before any subsection was opened.
    Loose,
    /// A heading of level 3 inside a merged section: it names a subsection.
    Title,
    /// Inside a merged section, under the subsection of this title.
    Under(Seq<char>),
}

/// Where the scan puts the entry at position `i`.
pub open spec fn place(entries: Seq<EntryModel>, i: int) -> Place {
    let role = entries[i].role;
    if role == Role::Target {
        Place::Through
    } else if role == Role::Superseded {
        Place::Dropped
    } else if !in_run(entries, i + 1) {
        Place::Through
    } else if role.opens_subsection() {
        Place::Title
    } else {
        match title_after(entries, i) {
            Some(title) => Place::Under(title),
            None => Place::Loose,
        }
    }
}

/// The positions below `n` of the entries that the scan puts at `at`, in rising order.
pub open spec fn placed(entries: Seq<EntryModel>, n: int, at: Place) -> Seq<int>
    decreases n,
{
    if 0 < n <= entries.len() {
        if place(entries, n - 1) == at {
            placed(entries, n - 1, at).push(n - 1)
        } else {
            placed(entries, n - 1, at)
        }
    } else {
        Seq::empty()
    }
}

/// The titles of the subsections that the scan opens among the first `n` entries, each once,
/// in the order in which it first meets them.
pub open spec fn titles(entries: Seq<EntryModel>, n: int) -> Seq<Seq<char>>
    decreases n,
{
    if 0 < n <= entries.len() {
        let before = titles(entries, n - 1);
        if place(entries, n - 1) == Place::Title && !before.contains(entries[n - 1].text) {
            before.push(entries[n - 1].text)
        } else {
            before
        }
    } else {
        Seq::empty()
    }
}

/// The mathematical value of a [`MergePart`].
pub struct PartModel {
    pub title: Seq<char>,
    pub content: Seq<int>,
}

/// The mathematical value of a [`Segmentation`].
pub struct SegmentationModel {
    pub through: Seq<int>,
    pub retained: int,
    pub loose: Seq<int>,
    pub parts: Seq<PartModel>,
}

/// The subsection of one title among the first `n` entries.
pub open spec fn part_of(entries: Seq<EntryModel>, n: int, title: Seq<char>) -> PartModel {
    PartModel { title, content: placed(entries, n, Place::Under(title)) }
}

/// The segmentation of a document that holds the target's heading: what is kept in place,
/// where the target's heading stands in it, what the merged sections hold before any
/// subsection, and their subsections by title.
pub open spec fn segmentation(entries: Seq<EntryModel>) -> SegmentationModel {
    let n = entries.len() as int;
    SegmentationModel {
        through: placed(entries, n, Place::Through),
        retained: placed(entries, target_from(entries, 0), Place::Through).len() as int,
        loose: placed(entries, n, Place::Loose),
        parts: titles(entries, n).map_values(|title: Seq<char>| part_of(entries, n, title)),
    }
}

/// The error that the scan ends in: none where exactly one heading names the target.
pub open spec fn scan_error(entries: Seq<EntryModel>) -> Option<ChangelogError> {
    let first = target_from(entries, 0);
    if first >= entries.len() {
        Some(ChangelogError::NoVersionHeadingFound)
    } else if target_from(entries, first + 1) < entries.len() {
        Some(ChangelogError::MultipleVersionHeadings)
    } else {
        None
    }
}

/// The values of a list of positions.
pub open spec fn positions(v: Seq<usize>) -> Seq<int> {
    v.map_values(|i: usize| i as int)
}

/// The blocks that the merged sections hold under one subsection title.
#[derive(Clone, Debug, PartialEq, Eq)]
pub struct MergePart {
    /// The heading of the subsection as it is written.
    pub title: String,
    /// The positions of the blocks, in the order of the document.
    pub content: Vec<usize>,
}

impl View for MergePart {
    type V = PartModel;

    open spec fn view(&self) -> PartModel {
        PartModel { title: self.title@, content: positions(self.content@) }
    }
}

/// What the scan of a document for merging gives. Blocks are named by their position among
/// the document's top-level blocks.
#[derive(Clone, Debug, PartialEq, Eq)]
pub struct Segmentation {
    /// The blocks that stay where they are, in the order of the document.
    pub pass_through: Vec<usize>,
    /// Where in `pass_through` the target's heading stands.
    pub retained: usize,
    /// The blocks of the merged sections that stand under no subsection.
    pub loose: Vec<usize>,
    /// The subsections of the merged sections, in the order in which their titles first
    /// occur.
    pub parts: Vec<MergePart>,
}

impl View for Segmentation {
    type V = SegmentationModel;

    open spec fn view(&self) -> SegmentationModel {
        SegmentationModel {
            through: positions(self.pass_through@),
            retained: self.retained as int,
            loose: positions(self.loose@),
            parts: self.parts@.map_values(|p: MergePart| p@),
        }
    }
}

/// Whether every position that a segmentation names lies below `n`, and the target's
/// heading is one of the blocks kept in place.
pub open spec fn fits(seg: SegmentationModel, n: int) -> bool {
    &&& 0 <= seg.retained < seg.through.len()
    &&& forall|k: int| 0 <= k < seg.through.len() ==> 0 <= #[trigger] seg.through[k] < n
    &&& forall|k: int| 0 <= k < seg.loose.len() ==> 0 <= #[trigger] seg.loose[k] < n
    &&& forall|j: int, k: int|
        0 <= j < seg.parts.len() && 0 <= k < seg.parts[j].content.len() ==> 0
            <= #[trigger] seg.parts[j].content[k] < n
}

/// The positions that `placed` gives lie below `n`, rise, and are those of the entries put
/// at `at`.
pub proof fn lemma_placed(entries: Seq<EntryModel>, n: int, at: Place)
    requires
        n <= entries.len(),
    ensures
        forall|k: int|
            0 <= k < placed(entries, n, at).len() ==> {
                let i = #[trigger] placed(entries, n, at)[k];
                0 <= i < n && i < entries.len() && place(entries, i) == at
            },
        forall|a: int, b: int|
            0 <= a < b < placed(entries, n, at).len() ==> placed(entries, n, at)[a] < placed(
                entries,
                n,
                at,
            )[b],
        forall|i: int|
            0 <= i < n && i < entries.len() && place(entries, i) == at ==> placed(
                entries,
                n,
                at,
            ).contains(i),
    decreases n,
{
    if 0 < n <= entries.len() {
        lemma_placed(entries, n - 1, at);
        let before = placed(entries, n - 1, at);
        let now = placed(entries, n, at);
        assert forall|i: int|
            0 <= i < n && i < entries.len() && place(entries, i) == at implies now.contains(
            i,
        ) by {
            if i < n - 1 {
                let k = choose|k: int| 0 <= k < before.len() && before[k] == i;
                assert(now[k] == i);
            } else {
                assert(now[now.len() - 1] == i);
            }
        }
    }
}

/// A title that the scan is under is one of the titles that it has collected.
pub proof fn lemma_title_collected(entries: Seq<EntryModel>, n: int)
    ensures
        match title_after(entries, n) {
            Some(title) => titles(entries, n).contains(title),
            None => true,
        },
    decreases n,
{
    if 0 < n <= entries.len() {
        lemma_title_collected(entries, n - 1);
        let before = titles(entries, n - 1);
        let now = titles(entries, n);
        if in_run(entries, n) && entries[n - 1].role.opens_subsection() {
            let text = entries[n - 1].text;
            assert(place(entries, n - 1) == Place::Title);
            if before.contains(text) {
            } else {
                assert(now[now.len() - 1] == text);
            }
        } else {
            match title_after(entries, n - 1) {
                Some(title) => {
                    let k = choose|k: int| 0 <= k < before.len() && before[k] == title;
                    assert(now[k] == title);
                },
                None => {},
            }
        }
    }
}

/// No title is collected twice.
pub proof fn lemma_titles_distinct(entries: Seq<EntryModel>, n: int)
    ensures
        forall|a: int, b: int|
            0 <= a < b < titles(entries, n).len() ==> titles(entries, n)[a] != titles(
                entries,
                n,
            )[b],
    decreases n,
{
    if 0 < n <= entries.len() {
        lemma_titles_distinct(entries, n - 1);
        let before = titles(entries, n - 1);
        let now = titles(entries, n);
        assert forall|a: int, b: int| 0 <= a < b < now.len() implies now[a] != now[b] by {
            if b < before.len() {
                assert(now[a] == before[a] && now[b] == before[b]);
            } else {
                assert(now[a] == before[a]);
                assert(!before.contains(now[b]));
            }
        }
    }
}

/// Nothing is put under a title that has not been collected.
pub proof fn lemma_unknown_title_is_empty(entries: Seq<EntryModel>, n: int, title: Seq<char>)
    requires
        !titles(entries, n).contains(title),
    ensures
        placed(entries, n, Place::Under(title)).len() == 0,
    decreases n,
{
    if 0 < n <= entries.len() {
        let before = titles(entries, n - 1);
        let now = titles(entries, n);
        if before.contains(title) {
            let k = choose|k: int| 0 <= k < before.len() && before[k] == title;
            assert(now[k] == title);
        }
        lemma_unknown_title_is_empty(entries, n - 1, title);
        if place(entries, n - 1) == Place::Under(title) {
            lemma_title_collected(entries, n - 1);
        }
    }
}

/// The position of the part with the given title.
fn find_part(parts: &Vec<MergePart>, title: &String) -> (r: Option<usize>)
    ensures
        match r {
            Some(j) => j < parts.len() && parts[j as int].title@ == title@,
            None => forall|j: int| 0 <= j < parts.len() ==> (#[trigger] parts[j]).title@ != title@,
        },
{
    let mut j: usize = 0;
    while j < parts.len()
        invariant
            j <= parts.len(),
            forall|k: int| 0 <= k < j ==> (#[trigger] parts[k]).title@ != title@,
        decreases parts.len() - j,
    {
        if parts[j].title == *title {
            return Some(j);
        }
        j += 1;
    }
    None
}

/// Scans the entries of a document once and says where each block goes when the sections of
/// the superseded versions are merged into that of the target.
pub fn segment(entries: &Vec<Entry>) -> (r: Result<Segmentation, ChangelogError>)
    ensures
        match r {
            Ok(seg) => {
                &&& scan_error(entries_view(entries@)) is None
                &&& seg@ == segmentation(entries_view(entries@))
                &&& fits(seg@, entries.len() as int)
            },
            Err(e) => scan_error(entries_view(entries@)) == Some(e),
        },
{
    let ghost model = entries_view(entries@);
    let n = entries.len();
    let mut inside = false;
    let mut current: Option<usize> = None;
    let mut pass_through: Vec<usize> = Vec::new();
    let mut retained: Option<usize> = None;
    let mut loose: Vec<usize> = Vec::new();
    let mut parts: Vec<MergePart> = Vec::new();
    let mut i: usize = 0;
    while i < n
        invariant
            n == entries.len(),
            model == entries_view(entries@),
            i <= n,
            inside == in_run(model, i as int),
            positions(pass_through@) == placed(model, i as int, Place::Through),
            positions(loose@) == placed(model, i as int, Place::Loose),
            parts.len() == titles(model, i as int).len(),
            forall|j: int|
                0 <= j < parts.len() ==> {
                    &&& (#[trigger] parts[j]).title@ == titles(model, i as int)[j]
                    &&& positions(parts[j].content@) == placed(
                        model,
                        i as int,
                        Place::Under(titles(model, i as int)[j]),
                    )
                },
            match current {
                Some(c) => c < parts.len() && title_after(model, i as int) == Some(
                    titles(model, i as int)[c as int],
                ),
                None => title_after(model, i as int) is None,
            },
            match retained {
                Some(p) => {
                    let first = target_from(model, 0);
                    &&& 0 <= first < i
                    &&& p == placed(model, first, Place::Through).len()
                    &&& p < pass_through.len()
                    &&& target_from(model, first + 1) == target_from(model, i as int)
                },
                None => target_from(model, 0) == target_from(model, i as int),
            },
        decreases n - i,
    {
        let role = entries[i].role;
        let ghost here = i as int;
        let ghost known = titles(model, here);
        assert(model[here] == entries[here]@);
        proof {
            lemma_titles_distinct(model, here);
            lemma_title_collected(model, here);
        }
        if role == Role::Target {
            if retained.is_some() {
                return Err(ChangelogError::MultipleVersionHeadings);
            }
            proof {
                lemma_placed(model, here + 1, Place::Through);
            }
            retained = Some(pass_through.len());
            pass_through.push(i);
            inside = true;
            assert(positions(pass_through@) =~= placed(model, here + 1, Place::Through));
        } else if role == Role::Superseded {
            inside = true;
        } else {
            if role.is_section_terminator() {
                inside = false;
            }
            if !inside {
                pass_through.push(i);
                assert(positions(pass_through@) =~= placed(model, here + 1, Place::Through));
            } else if role.is_subsection_heading() {
                assert(place(model, here) == Place::Title);
                match find_part(&parts, &entries[i].text) {
                    Some(j) => {
                        assert(known[j as int] == model[here].text);
                        current = Some(j);
                    },
                    None => {
                        let title = entries[i].text.clone();
                        assert(!known.contains(title@)) by {
                            if known.contains(title@) {
                                let k = choose|k: int| 0 <= k < known.len() && known[k] == title@;
                                assert(parts[k].title@ == title@);
                            }
                        }
                        proof {
                            lemma_unknown_title_is_empty(model, here, title@);
                        }
                        parts.push(MergePart { title, content: Vec::new() });
                        current = Some(parts.len() - 1);
                        assert(positions(parts[parts.len() - 1].content@) =~= placed(
                            model,
                            here + 1,
                            Place::Under(model[here].text),
                        ));
                    },
                }
            } else {
                match current {
                    Some(c) => {
                        let ghost before = parts@;
                        parts[c].content.push(i);
                        assert(place(model, here) == Place::Under(known[c as int]));
                        assert(positions(parts[c as int].content@) =~= placed(
                            model,
                            here + 1,
                            Place::Under(known[c as int]),
                        ));
                        assert forall|j: int| 0 <= j < parts.len() implies {
                            &&& (#[trigger] parts[j]).title@ == titles(model, here + 1)[j]
                            &&& positions(parts[j].content@) == placed(
                                model,
                                here + 1,
                                Place::Under(titles(model, here + 1)[j]),
                            )
                        } by {
                            if j != c {
                                assert(parts[j] == before[j]);
                                assert(known[j] != known[c as int]);
                            }
                        }
                    },
                    None => {
                        loose.push(i);
                        assert(positions(loose@) =~= placed(model, here + 1, Place::Loose));
                    },
                }
            }
        }
        i += 1;
    }
    match retained {
        Some(p) => {
            let seg = Segmentation { pass_through, retained: p, loose, parts };
            proof {
                let expected = segmentation(model);
                assert(seg@.parts =~= expected.parts);
                assert(seg@ == expected);
                lemma_placed(model, n as int, Place::Through);
                lemma_placed(model, n as int, Place::Loose);
                assert forall|j: int, k: int|
                    0 <= j < seg@.parts.len() && 0 <= k < seg@.parts[j].content.len() implies 0
                    <= #[trigger] seg@.parts[j].content[k] < n by {
                    lemma_placed(model, n as int, Place::Under(titles(model, n as int)[j]));
                }
            }
            Ok(seg)
        },
        None => Err(ChangelogError::NoVersionHeadingFound),
    }
}

/// The positions placed among the first `m` entries come first among those placed among the
/// first `n`.
pub proof fn lemma_placed_grows(entries: Seq<EntryModel>, m: int, n: int, at: Place)
    requires
        0 <= m <= n <= entries.len(),
    ensures
        placed(entries, m, at).len() <= placed(entries, n, at).len(),
        placed(entries, m, at) == placed(entries, n, at).take(placed(entries, m, at).len() as int),
    decreases n - m,
{
    if m < n {
        lemma_placed_grows(entries, m, n - 1, at);
    }
    assert(placed(entries, m, at) =~= placed(entries, n, at).take(
        placed(entries, m, at).len() as int,
    ));
}

/// Where merging goes through, the text holds one version heading from the merged sections,
/// that of the target: the block marked as retained is the target's heading, no other block
/// that is written is one, and no heading of a superseded version is written.
pub proof fn law_one_version_heading_is_retained(entries: Seq<EntryModel>)
    requires
        scan_error(entries) is None,
    ensures
        ({
            let seg = segmentation(entries);
            &&& 0 <= seg.retained < seg.through.len()
            &&& seg.through[seg.retained] == target_from(entries, 0)
            &&& entries[seg.through[seg.retained]].role == Role::Target
            &&& forall|k: int|
                0 <= k < seg.through.len() && k != seg.retained ==> !entries[
                #[trigger] seg.through[k]].role.heads_run()
            &&& forall|k: int|
                0 <= k < seg.loose.len() ==> !entries[#[trigger] seg.loose[k]].role.heads_run()
            &&& forall|j: int, k: int|
                0 <= j < seg.parts.len() && 0 <= k < seg.parts[j].content.len() ==> !entries[
                #[trigger] seg.parts[j].content[k]].role.heads_run()
        }),
{
    let n = entries.len() as int;
    let seg = segmentation(entries);
    let first = target_from(entries, 0);
    lemma_target_from(entries, 0);
    lemma_target_from(entries, first + 1);
    lemma_placed_grows(entries, first + 1, n, Place::Through);
    lemma_placed(entries, n, Place::Through);
    lemma_placed(entries, n, Place::Loose);
    assert(placed(entries, first + 1, Place::Through) == placed(
        entries,
        first,
        Place::Through,
    ).push(first));
    assert(seg.through[seg.retained] == placed(entries, first + 1, Place::Through)[seg.retained]);
    assert forall|k: int| 0 <= k < seg.through.len() && k != seg.retained implies !entries[
    #[trigger] seg.through[k]].role.heads_run() by {
        let i = seg.through[k];
        assert(place(entries, i) == Place::Through);
        assert(i != first);
    }
    assert forall|j: int, k: int|
        0 <= j < seg.parts.len() && 0 <= k < seg.parts[j].content.len() implies !entries[
    #[trigger] seg.parts[j].content[k]].role.heads_run() by {
        lemma_placed(entries, n, Place::Under(titles(entries, n)[j]));
    }
}

/// Whether the entry at `i` is a heading that opens the subsection of the given title.
pub open spec fn opens(entries: Seq<EntryModel>, i: int, title: Seq<char>) -> bool {
    0 <= i < entries.len() && place(entries, i) == Place::Title && entries[i].text == title
}

/// The titles collected among the first `n` entries are those of the headings that open a
/// subsection there.
pub proof fn lemma_titles_are_opened(entries: Seq<EntryModel>, n: int, title: Seq<char>)
    requires
        n <= entries.len(),
    ensures
        titles(entries, n).contains(title) <==> exists|i: int| i < n && opens(entries, i, title),
    decreases n,
{
    if 0 < n {
        lemma_titles_are_opened(entries, n - 1, title);
        let before = titles(entries, n - 1);
        let now = titles(entries, n);
        if before.contains(title) {
            let k = choose|k: int| 0 <= k < before.len() && before[k] == title;
            assert(now[k] == title);
            let i = choose|i: int| i < n - 1 && opens(entries, i, title);
            assert(i < n && opens(entries, i, title));
        } else if opens(entries, n - 1, title) {
            assert(now[now.len() - 1] == title);
        } else {
            if now.contains(title) {
                let k = choose|k: int| 0 <= k < now.len() && now[k] == title;
                assert(before[k] == title);
            }
            if exists|i: int| i < n && opens(entries, i, title) {
                let i = choose|i: int| i < n && opens(entries, i, title);
                assert(i < n - 1 && opens(entries, i, title));
            }
        }
    }
}

/// The blocks of the merged sections are grouped by the title they stand under, compared as
/// text: no two subsections have the same title, a subsection holds the blocks put under its
/// title and no others, every such block is in a subsection, and a subsection is written from
/// its last block in the document, which is the oldest, to its first.
pub proof fn law_subsections_are_grouped_by_title(entries: Seq<EntryModel>)
    ensures
        ({
            let parts = segmentation(entries).parts;
            &&& forall|a: int, b: int|
                0 <= a < b < parts.len() ==> parts[a].title != parts[b].title
            &&& forall|j: int, i: int|
                0 <= j < parts.len() && 0 <= i < entries.len() ==> (
                #[trigger] parts[j].content.contains(i) <==> place(entries, i) == Place::Under(
                    parts[j].title,
                ))
            &&& forall|i: int|
                0 <= i < entries.len() && (#[trigger] place(entries, i)) is Under ==> exists|
                    j: int,
                |
                    0 <= j < parts.len() && place(entries, i) == Place::Under(parts[j].title)
            &&& forall|j: int, a: int, b: int|
                0 <= j < parts.len() && 0 <= a < b < parts[j].content.len() ==> (
                #[trigger] parts[j].content.reverse()[a]) > (
                #[trigger] parts[j].content.reverse()[b])
        }),
{
    let n = entries.len() as int;
    let parts = segmentation(entries).parts;
    let all = titles(entries, n);
    lemma_titles_distinct(entries, n);
    assert forall|j: int, i: int| 0 <= j < parts.len() && 0 <= i < entries.len() implies (
    #[trigger] parts[j].content.contains(i) <==> place(entries, i) == Place::Under(
        parts[j].title,
    )) by {
        lemma_placed(entries, n, Place::Under(all[j]));
    }
    assert forall|i: int|
        0 <= i < entries.len() && (#[trigger] place(entries, i)) is Under implies exists|j: int|
        0 <= j < parts.len() && place(entries, i) == Place::Under(parts[j].title) by {
        let title = place(entries, i)->Under_0;
        lemma_placed(entries, n, Place::Under(title));
        assert(placed(entries, n, Place::Under(title)).contains(i));
        if !all.contains(title) {
            lemma_unknown_title_is_empty(entries, n, title);
        }
        let j = choose|j: int| 0 <= j < all.len() && all[j] == title;
        assert(parts[j].title == title);
    }
    assert forall|j: int, a: int, b: int|
        0 <= j < parts.len() && 0 <= a < b < parts[j].content.len() implies (
    #[trigger] parts[j].content.reverse()[a]) > (#[trigger] parts[j].content.reverse()[b]) by {
        lemma_placed(entries, n, Place::Under(all[j]));
    }
}

/// The subsections stand in the order in which the document first opens them: of two
/// subsections, the earlier one is opened at a place before which, and at which, the later
/// one is not.
pub proof fn law_subsections_keep_first_seen_order(entries: Seq<EntryModel>, a: int, b: int)
    requires
        0 <= a < b < segmentation(entries).parts.len(),
    ensures
        exists|i: int|
            #![trigger opens(entries, i, segmentation(entries).parts[a].title)]
            opens(entries, i, segmentation(entries).parts[a].title) && forall|k: int|
                0 <= k <= i ==> !opens(entries, k, segmentation(entries).parts[b].title),
{
    let n = entries.len() as int;
    let all = titles(entries, n);
    let parts = segmentation(entries).parts;
    lemma_first_seen_order(entries, n, a, b);
    assert(parts[a].title == all[a] && parts[b].title == all[b]);
    let i = choose|i: int|
        #![trigger opens(entries, i, all[a])]
        opens(entries, i, all[a]) && forall|k: int| 0 <= k <= i ==> !opens(entries, k, all[b]);
    assert(opens(entries, i, parts[a].title));
}

/// The order of the titles collected among the first `n` entries.
proof fn lemma_first_seen_order(entries: Seq<EntryModel>, n: int, a: int, b: int)
    requires
        n <= entries.len(),
        0 <= a < b < titles(entries, n).len(),
    ensures
        exists|i: int|
            #![trigger opens(entries, i, titles(entries, n)[a])]
            opens(entries, i, titles(entries, n)[a]) && forall|k: int|
                0 <= k <= i ==> !opens(entries, k, titles(entries, n)[b]),
    decreases n,
{
    let before = titles(entries, n - 1);
    let now = titles(entries, n);
    if b < before.len() {
        lemma_first_seen_order(entries, n - 1, a, b);
        let i = choose|i: int|
            #![trigger opens(entries, i, before[a])]
            opens(entries, i, before[a]) && forall|k: int|
                0 <= k <= i ==> !opens(entries, k, before[b]);
        assert(opens(entries, i, now[a]));
    } else {
        let early = now[a];
        let late = now[b];
        assert(before[a] == early);
        assert(!before.contains(late));
        lemma_titles_are_opened(entries, n - 1, early);
        let i = choose|i: int| i < n - 1 && opens(entries, i, early);
        assert forall|k: int| 0 <= k <= i implies !opens(entries, k, late) by {
            lemma_titles_are_opened(entries, n - 1, late);
        }
        assert(opens(entries, i, now[a]));
    }
}

/// Inside a merged section no block ends a subsection without opening one: a heading of
/// level 1 or 2 either heads a merged section itself or has ended the one before it.
pub proof fn law_no_subsection_ends_inside_a_run(entries: Seq<EntryModel>, i: int)
    requires
        0 <= i < entries.len(),
        !entries[i].role.heads_run(),
        in_run(entries, i + 1),
    ensures
        !entries[i].role.ends_subsection(),
{
}

} // verus!
