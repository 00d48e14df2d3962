use crate::entry::{entries_view, Entry, EntryModel};
use crate::error::ChangelogError;
use crate::extract::result_is;
use crate::segment::{
    fits, in_run, lemma_placed, place, positions, segmentation, PartModel, Place, Segmentation,
    SegmentationModel,
};
use vstd::prelude::*;
use vstd::string::StrSliceExecFns;
use vstd::string::StringExecFns;

verus! {

/// The texts of the entries at the given positions, each followed by a line break.
pub open spec fn lines(entries: Seq<EntryModel>, at: Seq<int>) -> Seq<char>
    decreases at.len(),
{
    if at.len() == 0 {
        Seq::empty()
    } else {
        lines(entries, at.drop_last()) + entries[at.last()].text + seq!['\n']
    }
}

/// A subsection as it is written: its title, then its blocks, the last one collected first.
pub open spec fn part_text(entries: Seq<EntryModel>, part: PartModel) -> Seq<char> {
    part.title + seq!['\n'] + lines(entries, part.content.reverse())
}

/// The subsections as they are written, one after the other.
pub open spec fn parts_text(entries: Seq<EntryModel>, parts: Seq<PartModel>) -> Seq<char>
    decreases parts.len(),
{
    if parts.len() == 0 {
        Seq::empty()
    } else {
        parts_text(entries, parts.drop_last()) + part_text(entries, parts.last())
    }
}

/// The merged document with a line break after its last block: the blocks kept in place,
/// and behind the target's heading what was loose in the merged sections, then their
/// subsections.
pub open spec fn assembled(entries: Seq<EntryModel>, seg: SegmentationModel) -> Seq<char> {
    lines(entries, seg.through.take(seg.retained + 1)) + lines(entries, seg.loose) + parts_text(
        entries,
        seg.parts,
    ) + lines(entries, seg.through.skip(seg.retained + 1))
}

/// The text that is handed out: what was assembled without its last character; empty text is
/// an error.
pub open spec fn finished(text: Seq<char>) -> Result<Seq<char>, ChangelogError> {
    if text.len() <= 1 {
        Err(ChangelogError::NoContentFound)
    } else {
        Ok(text.drop_last())
    }
}

/// Writes a text and a line break behind it.
fn push_line(out: &mut String, text: &str)
    ensures
        final(out)@ == old(out)@ + text@ + seq!['\n'],
{
    out.append(text);
    out.append("\n");
    proof {
        reveal_strlit("\n");
    }
    assert("\n"@ =~= seq!['\n']);
}

/// Writes the blocks at the positions `at[from]` to `at[to - 1]`, a line break after each.
fn push_lines(out: &mut String, entries: &Vec<Entry>, at: &Vec<usize>, from: usize, to: usize)
    requires
        from <= to <= at.len(),
        forall|k: int| 0 <= k < at.len() ==> at[k] < entries.len(),
    ensures
        final(out)@ == old(out)@ + lines(
            entries_view(entries@),
            positions(at@).subrange(from as int, to as int),
        ),
{
    let ghost model = entries_view(entries@);
    let ghost all = positions(at@);
    let mut k: usize = from;
    assert(lines(model, all.subrange(from as int, from as int)) =~= Seq::<char>::empty());
    while k < to
        invariant
            from <= k <= to <= at.len(),
            model == entries_view(entries@),
            all == positions(at@),
            forall|k: int| 0 <= k < at.len() ==> at[k] < entries.len(),
            out@ == old(out)@ + lines(model, all.subrange(from as int, k as int)),
        decreases to - k,
    {
        let ghost done = all.subrange(from as int, k as int);
        let ghost next = all.subrange(from as int, k + 1);
        assert(next.drop_last() =~= done);
        assert(next.last() == at[k as int]);
        assert(model[at[k as int] as int] == entries[at[k as int] as int]@);
        push_line(out, entries[at[k]].text.as_str());
        assert(out@ =~= old(out)@ + lines(model, next));
        k += 1;
    }
}

/// Writes the blocks at the positions in `at`, the last one first, a line break after each.
fn push_lines_reversed(out: &mut String, entries: &Vec<Entry>, at: &Vec<usize>)
    requires
        forall|k: int| 0 <= k < at.len() ==> at[k] < entries.len(),
    ensures
        final(out)@ == old(out)@ + lines(entries_view(entries@), positions(at@).reverse()),
{
    let ghost model = entries_view(entries@);
    let ghost turned = positions(at@).reverse();
    let n = at.len();
    let mut k: usize = 0;
    assert(lines(model, turned.take(0)) =~= Seq::<char>::empty());
    while k < n
        invariant
            n == at.len(),
            k <= n,
            model == entries_view(entries@),
            turned == positions(at@).reverse(),
            turned.len() == n,
            forall|k: int| 0 <= k < at.len() ==> at[k] < entries.len(),
            out@ == old(out)@ + lines(model, turned.take(k as int)),
        decreases n - k,
    {
        let i = at[n - 1 - k];
        let ghost done = turned.take(k as int);
        let ghost next = turned.take(k + 1);
        assert(next.drop_last() =~= done);
        assert(next.last() == i);
        assert(model[i as int] == entries[i as int]@);
        push_line(out, entries[i].text.as_str());
        assert(out@ =~= old(out)@ + lines(model, next));
        k += 1;
    }
    assert(turned.take(n as int) =~= turned);
}

/// Writes the merged document from the entries and their segmentation.
pub fn assemble(entries: &Vec<Entry>, seg: &Segmentation) -> (r: Result<String, ChangelogError>)
    requires
        fits(seg@, entries.len() as int),
    ensures
        result_is(r, finished(assembled(entries_view(entries@), seg@))),
{
    let ghost model = entries_view(entries@);
    let ghost through = seg@.through;
    let ghost cut = seg@.retained + 1;
    let mut out = String::new();
    assert forall|k: int| 0 <= k < seg.pass_through.len() implies seg.pass_through[k]
        < entries.len() by {
        assert(through[k] == seg.pass_through[k]);
    }
    assert forall|k: int| 0 <= k < seg.loose.len() implies seg.loose[k] < entries.len() by {
        assert(seg@.loose[k] == seg.loose[k]);
    }
    push_lines(&mut out, entries, &seg.pass_through, 0, seg.retained + 1);
    push_lines(&mut out, entries, &seg.loose, 0, seg.loose.len());
    assert(through.subrange(0, cut) =~= through.take(cut));
    assert(seg@.loose.subrange(0, seg@.loose.len() as int) =~= seg@.loose);
    let ghost head = lines(model, through.take(cut)) + lines(model, seg@.loose);
    assert(out@ =~= head);
    let mut j: usize = 0;
    assert(parts_text(model, seg@.parts.take(0)) =~= Seq::<char>::empty());
    while j < seg.parts.len()
        invariant
            j <= seg.parts.len(),
            model == entries_view(entries@),
            fits(seg@, entries.len() as int),
            out@ == head + parts_text(model, seg@.parts.take(j as int)),
        decreases seg.parts.len() - j,
    {
        let ghost done = seg@.parts.take(j as int);
        let ghost next = seg@.parts.take(j + 1);
        let ghost before = out@;
        assert(next.drop_last() =~= done);
        assert(next.last() == seg.parts[j as int]@);
        assert forall|k: int| 0 <= k < seg.parts[j as int].content.len() implies seg.parts[j as int].content[k]
            < entries.len() by {
            assert(seg@.parts[j as int].content[k] == seg.parts[j as int].content[k]);
        }
        push_line(&mut out, seg.parts[j].title.as_str());
        push_lines_reversed(&mut out, entries, &seg.parts[j].content);
        assert(out@ =~= before + part_text(model, seg.parts[j as int]@));
        assert(out@ =~= head + parts_text(model, next));
        j += 1;
    }
    assert(seg@.parts.take(seg.parts.len() as int) =~= seg@.parts);
    let ghost middle = out@;
    push_lines(&mut out, entries, &seg.pass_through, seg.retained + 1, seg.pass_through.len());
    assert(through.subrange(cut, through.len() as int) =~= through.skip(cut));
    assert(out@ =~= assembled(model, seg@));
    let total = out.as_str().unicode_len();
    if total <= 1 {
        Err(ChangelogError::NoContentFound)
    } else {
        let text = String::from_str(out.as_str().substring_char(0, total - 1));
        assert(text@ =~= out@.drop_last());
        Ok(text)
    }
}

/// Merging leaves the blocks outside the merged sections as they are: every such block is
/// kept, the blocks that are kept stand in the order of the document, and the merged text is
/// made of their lines in that order, with what the merged sections held put in behind the
/// target's heading.
pub proof fn law_untouched_blocks_keep_their_order(entries: Seq<EntryModel>)
    ensures
        ({
            let seg = segmentation(entries);
            let kept = seg.through;
            &&& forall|i: int|
                0 <= i < entries.len() ==> (#[trigger] kept.contains(i) <==> place(entries, i)
                    == Place::Through)
            &&& forall|i: int|
                0 <= i < entries.len() && !entries[i].role.heads_run() && !in_run(entries, i + 1)
                    ==> #[trigger] kept.contains(i)
            &&& forall|a: int, b: int| 0 <= a < b < kept.len() ==> kept[a] < kept[b]
            &&& assembled(entries, seg) == lines(entries, kept.take(seg.retained + 1)) + (lines(
                entries,
                seg.loose,
            ) + parts_text(entries, seg.parts)) + lines(entries, kept.skip(seg.retained + 1))
        }),
{
    let seg = segmentation(entries);
    let kept = seg.through;
    lemma_placed(entries, entries.len() as int, Place::Through);
    assert forall|i: int| 0 <= i < entries.len() && #[trigger] kept.contains(i) implies place(
        entries,
        i,
    ) == Place::Through by {
        let k = choose|k: int| 0 <= k < kept.len() && kept[k] == i;
        assert(place(entries, kept[k]) == Place::Through);
    }
    assert forall|i: int|
        0 <= i < entries.len() && !entries[i].role.heads_run() && !in_run(
            entries,
            i + 1,
        ) implies #[trigger] kept.contains(i) by {
        assert(place(entries, i) == Place::Through);
    }
    assert(assembled(entries, seg) =~= lines(entries, kept.take(seg.retained + 1)) + (lines(
        entries,
        seg.loose,
    ) + parts_text(entries, seg.parts)) + lines(entries, kept.skip(seg.retained + 1)));
}

} // verus!
