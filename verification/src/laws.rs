//! Laws of the merge engine, each proved from the engine's model.

use vstd::prelude::*;
use crate::document::{DocumentModel, PageModel};
use crate::error::MergeErrorModel;
use crate::mapping::{action_named, MappingModel, MergeAction};
use crate::merge::{keeps_only, targets_present, LoadModel};

verus! {

/// Whether two pages differ in their frames at most.
pub open spec fn same_page_but_frames(left: PageModel, right: PageModel) -> bool {
    right == (PageModel { frames: right.frames, ..left })
}

/// Whether two documents have the same metadata and the same pages in the
/// same places, up to the frames that the pages hold.
pub open spec fn same_layout(left: DocumentModel, right: DocumentModel) -> bool {
    &&& left.product_info == right.product_info
    &&& left.page_num == right.page_num
    &&& left.page_data.len() == right.page_data.len()
    &&& forall|i: int|
        0 <= i < left.page_data.len() ==> same_page_but_frames(
            #[trigger] left.page_data[i],
            right.page_data[i],
        )
}

/// Documents of one layout occupy the same slots, each at the same place.
pub proof fn lemma_layout_fixes_slots(left: DocumentModel, right: DocumentModel, slot: u32)
    requires
        same_layout(left, right),
    ensures
        left.has_page(slot) == right.has_page(slot),
        left.has_page(slot) ==> left.page_position(slot) == right.page_position(slot),
{
    assert forall|i: int| 0 <= i < left.page_data.len() implies (#[trigger] left.page_data[i]).page_index
        == right.page_data[i].page_index by {
        assert(same_page_but_frames(left.page_data[i], right.page_data[i]));
    }
    if left.has_page(slot) {
        left.lemma_position_is_first_page(slot);
        let position = left.page_position(slot);
        assert(right.is_first_page(slot, position)) by {
            assert forall|j: int| 0 <= j < position implies (#[trigger] right.page_data[j]).page_index
                != slot by {
                assert(left.page_data[j].page_index != slot);
            }
        }
        right.lemma_first_page_is_position(slot, position);
    }
    if right.has_page(slot) {
        let i = choose|i: int| 0 <= i < right.page_data.len() && (#[trigger] right.page_data[i]).page_index == slot;
        assert(left.page_data[i].page_index == slot);
    }
}

/// An instruction that goes through touches nothing but the frames of the
/// pages: the metadata, the number of pages, and every page's index and
/// other fields stay.
pub proof fn lemma_step_keeps_layout(document: DocumentModel, mapping: MappingModel, loaded: LoadModel)
    ensures
        document.step(mapping, loaded) matches Ok(next) ==> same_layout(document, next),
{
    if document.step(mapping, loaded) is Ok && document.has_page(mapping.slot) {
        document.lemma_position_is_first_page(mapping.slot);
    }
}

/// A merge that goes through touches nothing but the frames of the pages.
pub proof fn lemma_merge_keeps_layout(
    base: DocumentModel,
    mappings: Seq<MappingModel>,
    loaded: Seq<LoadModel>,
    count: nat,
)
    ensures
        base.merge_prefix(mappings, loaded, count) matches Ok(merged) ==> same_layout(base, merged),
    decreases count,
{
    if count > 0 {
        lemma_merge_keeps_layout(base, mappings, loaded, (count - 1) as nat);
        if let Ok(previous) = base.merge_prefix(mappings, loaded, (count - 1) as nat) {
            lemma_step_keeps_layout(previous, mappings[count - 1], loaded[count - 1]);
            if let Ok(merged) = previous.step(mappings[count - 1], loaded[count - 1]) {
                assert forall|i: int| 0 <= i < base.page_data.len() implies same_page_but_frames(
                    #[trigger] base.page_data[i],
                    merged.page_data[i],
                ) by {
                    assert(same_page_but_frames(base.page_data[i], previous.page_data[i]));
                    assert(same_page_but_frames(previous.page_data[i], merged.page_data[i]));
                }
            }
        }
    }
}

/// No instruction is ever refused as an unknown action: an action outside
/// the closed set makes the instruction invalid, and that is reported
/// first.
pub proof fn lemma_unknown_action_is_invalid(
    base: DocumentModel,
    mappings: Seq<MappingModel>,
    loaded: Seq<LoadModel>,
    count: nat,
)
    ensures
        !(base.merge_prefix(mappings, loaded, count) matches Err(MergeErrorModel::UnknownAction(_))),
    decreases count,
{
    if count > 0 {
        lemma_unknown_action_is_invalid(base, mappings, loaded, (count - 1) as nat);
    }
}

/// Merging with `keep` instructions only gives back the base document,
/// whatever the store would answer. The one way for such a merge to fail is
/// a `keep` that targets a slot which the base lacks.
pub proof fn lemma_keep_only_changes_nothing(
    base: DocumentModel,
    mappings: Seq<MappingModel>,
    loaded: Seq<LoadModel>,
)
    requires
        keeps_only(mappings),
    ensures
        match base.merge(mappings, loaded) {
            Ok(merged) => merged == base,
            Err(reason) => exists|i: int|
                0 <= i < mappings.len() && !base.has_page((#[trigger] mappings[i]).slot) && reason
                    == MergeErrorModel::TargetSlotNotFound(mappings[i].slot),
        },
        targets_present(base, mappings) ==> base.merge(mappings, loaded) == Ok::<
            DocumentModel,
            MergeErrorModel,
        >(base),
{
    lemma_keep_prefix(base, mappings, loaded, mappings.len());
}

proof fn lemma_keep_prefix(
    base: DocumentModel,
    mappings: Seq<MappingModel>,
    loaded: Seq<LoadModel>,
    count: nat,
)
    requires
        count <= mappings.len(),
        keeps_only(mappings),
    ensures
        match base.merge_prefix(mappings, loaded, count) {
            Ok(merged) => merged == base,
            Err(reason) => exists|i: int|
                0 <= i < count && !base.has_page((#[trigger] mappings[i]).slot) && reason
                    == MergeErrorModel::TargetSlotNotFound(mappings[i].slot),
        },
        (forall|i: int| 0 <= i < count ==> base.has_page((#[trigger] mappings[i]).slot))
            ==> base.merge_prefix(mappings, loaded, count) == Ok::<DocumentModel, MergeErrorModel>(
            base,
        ),
    decreases count,
{
    if count > 0 {
        lemma_keep_prefix(base, mappings, loaded, (count - 1) as nat);
        let last = mappings[count - 1];
        assert(action_named(last.action) == Some(MergeAction::Keep));
        match base.merge_prefix(mappings, loaded, (count - 1) as nat) {
            Ok(previous) => {
                if !base.has_page(last.slot) {
                    assert(!base.has_page(mappings[count - 1].slot));
                }
            },
            Err(reason) => {
                let i = choose|i: int|
                    0 <= i < count - 1 && !base.has_page((#[trigger] mappings[i]).slot) && reason
                        == MergeErrorModel::TargetSlotNotFound(mappings[i].slot);
                assert(0 <= i < count && !base.has_page(mappings[i].slot));
            },
        }
    }
}

/// A `keep` that follows an instruction for the same slot leaves that
/// instruction's result as it is.
pub proof fn lemma_keep_after_changes_nothing(
    base: DocumentModel,
    first: MappingModel,
    keep: MappingModel,
    first_loaded: LoadModel,
    keep_loaded: LoadModel,
)
    requires
        action_named(keep.action) == Some(MergeAction::Keep),
        keep.slot == first.slot,
    ensures
        base.merge(seq![first, keep], seq![first_loaded, keep_loaded]) == base.merge(
            seq![first],
            seq![first_loaded],
        ),
{
    reveal_with_fuel(DocumentModel::merge_prefix, 3);
    lemma_step_keeps_layout(base, first, first_loaded);
    if let Ok(next) = base.step(first, first_loaded) {
        lemma_layout_fixes_slots(base, next, first.slot);
    }
}

/// A `keep` that precedes a valid instruction for the same slot does not
/// stand in its way: the instruction is applied as if it stood alone.
pub proof fn lemma_keep_before_changes_nothing(
    base: DocumentModel,
    keep: MappingModel,
    second: MappingModel,
    keep_loaded: LoadModel,
    second_loaded: LoadModel,
)
    requires
        action_named(keep.action) == Some(MergeAction::Keep),
        keep.slot == second.slot,
        second.is_valid(),
    ensures
        base.merge(seq![keep, second], seq![keep_loaded, second_loaded]) == base.merge(
            seq![second],
            seq![second_loaded],
        ),
{
    reveal_with_fuel(DocumentModel::merge_prefix, 3);
}

/// A valid instruction that targets a slot which the base document lacks
/// fails the merge with `TargetSlotNotFound`, provided the instructions
/// before it went through.
pub proof fn lemma_missing_target_fails(
    base: DocumentModel,
    mappings: Seq<MappingModel>,
    loaded: Seq<LoadModel>,
    at: nat,
)
    requires
        at < mappings.len(),
        base.merge_prefix(mappings, loaded, at) is Ok,
        mappings[at as int].is_valid(),
        !base.has_page(mappings[at as int].slot),
    ensures
        base.merge(mappings, loaded) == Err::<DocumentModel, MergeErrorModel>(
            MergeErrorModel::TargetSlotNotFound(mappings[at as int].slot),
        ),
{
    lemma_merge_keeps_layout(base, mappings, loaded, at);
    let previous = base.merge_prefix(mappings, loaded, at)->Ok_0;
    lemma_layout_fixes_slots(base, previous, mappings[at as int].slot);
    assert(base.merge_prefix(mappings, loaded, at + 1) == previous.step(
        mappings[at as int],
        loaded[at as int],
    ));
    base.lemma_failure_is_final(mappings, loaded, at + 1, mappings.len());
}

/// When the source document offers no page (none at the target slot asked
/// for, or no page at all), a `replace` or `combine` goes through and
/// changes nothing.
pub proof fn lemma_absent_source_page_changes_nothing(
    base: DocumentModel,
    mapping: MappingModel,
    source: DocumentModel,
)
    requires
        mapping.is_valid(),
        base.has_page(mapping.slot),
        source.source_page(mapping.target_slot) is None,
    ensures
        base.step(mapping, Ok(source)) == Ok::<DocumentModel, MergeErrorModel>(base),
        base.merge(seq![mapping], seq![Ok(source)]) == Ok::<DocumentModel, MergeErrorModel>(base),
{
    reveal_with_fuel(DocumentModel::merge_prefix, 2);
}

/// A `replace` puts the source page's whole frame group in the place of
/// the target page's own; nothing of the old frames is left.
pub proof fn lemma_replace_overwrites(
    base: DocumentModel,
    mapping: MappingModel,
    source: DocumentModel,
)
    requires
        action_named(mapping.action) == Some(MergeAction::Replace),
        mapping.source_file is Some,
        base.has_page(mapping.slot),
        source.source_page(mapping.target_slot) is Some,
    ensures
        base.step(mapping, Ok(source)) matches Ok(merged) && merged.find_page(mapping.slot) matches Some(
            page,
        ) && page.frames == source.source_page(mapping.target_slot)->0.frames,
{
    lemma_step_keeps_layout(base, mapping, Ok(source));
    let merged = base.step(mapping, Ok(source))->Ok_0;
    lemma_layout_fixes_slots(base, merged, mapping.slot);
    base.lemma_position_is_first_page(mapping.slot);
}

/// A `combine` makes the target page's frame list the old list followed by
/// the source page's list, keeps the group's `valid` flag, and declares the
/// new length as the frame count (exactly, when it fits in 32 bits).
pub proof fn lemma_combine_appends(base: DocumentModel, mapping: MappingModel, source: DocumentModel)
    requires
        action_named(mapping.action) == Some(MergeAction::Combine),
        mapping.source_file is Some,
        base.has_page(mapping.slot),
        source.source_page(mapping.target_slot) is Some,
    ensures
        base.step(mapping, Ok(source)) matches Ok(merged) && merged.find_page(mapping.slot) matches Some(
            page,
        ) && {
            let target = base.find_page(mapping.slot)->0;
            let offered = source.source_page(mapping.target_slot)->0;
            &&& page.frames.frame_data == target.frames.frame_data + offered.frames.frame_data
            &&& page.frames.valid == target.frames.valid
            &&& page.frames.frame_num == Some(page.frames.frame_data.len() as u32)
            &&& page.frames.frame_data.len() <= u32::MAX ==> page.frames.frame_num->0
                == page.frames.frame_data.len()
        },
{
    lemma_step_keeps_layout(base, mapping, Ok(source));
    let merged = base.step(mapping, Ok(source))->Ok_0;
    lemma_layout_fixes_slots(base, merged, mapping.slot);
    base.lemma_position_is_first_page(mapping.slot);
}

} // verus!
