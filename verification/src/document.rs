//! The document model: a configuration, its pages and their frames.

use vstd::prelude::*;
use crate::error::{MergeError, MergeErrorModel};
use crate::mapping::{action_named, MergeAction};

verus! {

/// One animation step: an identifier and an ordered list of color tokens.
/// A token is an atomic string; it is never parsed as a color.
#[derive(Clone, Debug, PartialEq)]
pub struct FrameData {
    pub frame_index: u32,
    pub frame_rgb: Vec<String>,
}

/// The frames of one page, with the metadata that travels with them.
#[derive(Clone, Debug, PartialEq)]
pub struct FramesData {
    pub valid: Option<u32>,
    /// Declared number of frames. After a combine it is the length of
    /// `frame_data`.
    pub frame_num: Option<u32>,
    pub frame_data: Vec<FrameData>,
}

/// One addressable animation page. Only `page_index` and `frames` matter to
/// the merge engine; everything else is carried through untouched.
#[derive(Clone, Debug, PartialEq)]
pub struct PageData {
    pub valid: u32,
    /// The slot this page occupies. It need not match the page's position in
    /// the document, and it need not be unique.
    pub page_index: u32,
    pub lightness: u32,
    pub speed_ms: u32,
    pub color: serde_json::Value,
    pub word_page: serde_json::Value,
    pub frames: FramesData,
    pub keyframes: serde_json::Value,
    pub comment: Option<String>,
}

/// A device profile: metadata and an ordered list of pages.
#[derive(Clone, Debug, PartialEq)]
pub struct LEDConfiguration {
    pub product_info: serde_json::Value,
    /// Declared number of pages. The actual number is the length of
    /// `page_data`.
    pub page_num: u32,
    pub page_data: Vec<PageData>,
}

/// Mathematical value of a [`FrameData`].
pub struct FrameModel {
    pub frame_index: u32,
    pub frame_rgb: Seq<Seq<char>>,
}

/// Mathematical value of a [`FramesData`].
pub struct FramesModel {
    pub valid: Option<u32>,
    pub frame_num: Option<u32>,
    pub frame_data: Seq<FrameModel>,
}

/// Mathematical value of a [`PageData`].
pub struct PageModel {
    pub valid: u32,
    pub page_index: u32,
    pub lightness: u32,
    pub speed_ms: u32,
    pub color: serde_json::Value,
    pub word_page: serde_json::Value,
    pub frames: FramesModel,
    pub keyframes: serde_json::Value,
    pub comment: Option<Seq<char>>,
}

/// Mathematical value of a [`LEDConfiguration`].
pub struct DocumentModel {
    pub product_info: serde_json::Value,
    pub page_num: u32,
    pub page_data: Seq<PageModel>,
}

/// The color tokens of a frame, each as its characters.
pub open spec fn colors_model(colors: Seq<String>) -> Seq<Seq<char>> {
    Seq::new(colors.len(), |i: int| colors[i]@)
}

/// The frames of a list, each as its model.
pub open spec fn frames_model(frames: Seq<FrameData>) -> Seq<FrameModel> {
    Seq::new(frames.len(), |i: int| frames[i]@)
}

/// The pages of a list, each as its model.
pub open spec fn pages_model(pages: Seq<PageData>) -> Seq<PageModel> {
    Seq::new(pages.len(), |i: int| pages[i]@)
}

impl View for FrameData {
    type V = FrameModel;

    open spec fn view(&self) -> FrameModel {
        FrameModel { frame_index: self.frame_index, frame_rgb: colors_model(self.frame_rgb@) }
    }
}

impl View for FramesData {
    type V = FramesModel;

    open spec fn view(&self) -> FramesModel {
        FramesModel {
            valid: self.valid,
            frame_num: self.frame_num,
            frame_data: frames_model(self.frame_data@),
        }
    }
}

impl View for PageData {
    type V = PageModel;

    open spec fn view(&self) -> PageModel {
        PageModel {
            valid: self.valid,
            page_index: self.page_index,
            lightness: self.lightness,
            speed_ms: self.speed_ms,
            color: self.color,
            word_page: self.word_page,
            frames: self.frames@,
            keyframes: self.keyframes,
            comment: match self.comment {
                Some(text) => Some(text@),
                None => None,
            },
        }
    }
}

impl View for LEDConfiguration {
    type V = DocumentModel;

    open spec fn view(&self) -> DocumentModel {
        DocumentModel {
            product_info: self.product_info,
            page_num: self.page_num,
            page_data: pages_model(self.page_data@),
        }
    }
}

impl PageModel {
    /// The page after `action` has been applied to it with `source` as the
    /// page to take frames from.
    ///
    /// `Keep` changes nothing. `Replace` takes the source's whole frame
    /// group. `Combine` appends the source's frame list to the page's own
    /// and sets the declared count to the new length, cut to 32 bits; the
    /// group's `valid` flag stays. No other field of the page changes.
    pub open spec fn merged_with(self, source: PageModel, action: MergeAction) -> PageModel {
        match action {
            MergeAction::Keep => self,
            MergeAction::Replace => PageModel { frames: source.frames, ..self },
            MergeAction::Combine => PageModel {
                frames: FramesModel {
                    valid: self.frames.valid,
                    frame_num: Some(
                        (self.frames.frame_data.len() + source.frames.frame_data.len()) as u32,
                    ),
                    frame_data: self.frames.frame_data + source.frames.frame_data,
                },
                ..self
            },
        }
    }
}

impl DocumentModel {
    /// Whether some page occupies `slot`.
    pub open spec fn has_page(self, slot: u32) -> bool {
        exists|i: int| 0 <= i < self.page_data.len() && (#[trigger] self.page_data[i]).page_index == slot
    }

    /// Whether `position` is where the first page occupying `slot` stands.
    pub open spec fn is_first_page(self, slot: u32, position: int) -> bool {
        &&& 0 <= position < self.page_data.len()
        &&& self.page_data[position].page_index == slot
        &&& forall|j: int| 0 <= j < position ==> (#[trigger] self.page_data[j]).page_index != slot
    }

    /// Where the first page occupying `slot` stands. Meaningful only when
    /// `has_page(slot)`.
    pub open spec fn page_position(self, slot: u32) -> int {
        choose|i: int| self.is_first_page(slot, i)
    }

    /// The page at `slot`: the first one whose index is `slot`.
    pub open spec fn find_page(self, slot: u32) -> Option<PageModel> {
        if self.has_page(slot) {
            Some(self.page_data[self.page_position(slot)])
        } else {
            None
        }
    }

    /// The document with the page at `position` exchanged for `page`.
    pub open spec fn with_page(self, position: int, page: PageModel) -> DocumentModel {
        DocumentModel { page_data: self.page_data.update(position, page), ..self }
    }

    /// What merging `source` into the page at slot `target` gives: the
    /// updated document, or the reason why nothing was done. A missing
    /// target is reported before an unknown action.
    pub open spec fn merge_page(self, target: u32, source: PageModel, action: Seq<char>) -> Result<
        DocumentModel,
        MergeErrorModel,
    > {
        if !self.has_page(target) {
            Err(MergeErrorModel::TargetSlotNotFound(target))
        } else {
            match action_named(action) {
                None => Err(MergeErrorModel::UnknownAction(action)),
                Some(known) => {
                    let position = self.page_position(target);
                    Ok(self.with_page(position, self.page_data[position].merged_with(source, known)))
                },
            }
        }
    }

    /// A slot has at most one first page: whatever position qualifies is
    /// the one that `page_position` names.
    pub proof fn lemma_first_page_is_position(self, slot: u32, position: int)
        requires
            self.is_first_page(slot, position),
        ensures
            self.has_page(slot),
            self.page_position(slot) == position,
    {
        let chosen = self.page_position(slot);
        assert(self.is_first_page(slot, chosen));
        if chosen < position {
            assert(self.page_data[chosen].page_index != slot);
        } else if position < chosen {
            assert(self.page_data[position].page_index != slot);
        }
    }

    /// An occupied slot has a first page, and `page_position` names it.
    pub proof fn lemma_position_is_first_page(self, slot: u32)
        requires
            self.has_page(slot),
        ensures
            self.is_first_page(slot, self.page_position(slot)),
    {
        let witness = choose|i: int| 0 <= i < self.page_data.len() && (#[trigger] self.page_data[i]).page_index == slot;
        self.lemma_first_page_before(slot, witness);
    }

    proof fn lemma_first_page_before(self, slot: u32, bound: int)
        requires
            0 <= bound < self.page_data.len(),
            self.page_data[bound].page_index == slot,
        ensures
            exists|i: int| self.is_first_page(slot, i),
        decreases bound,
    {
        if exists|j: int| 0 <= j < bound && (#[trigger] self.page_data[j]).page_index == slot {
            let earlier = choose|j: int| 0 <= j < bound && (#[trigger] self.page_data[j]).page_index == slot;
            self.lemma_first_page_before(slot, earlier);
        } else {
            assert(self.is_first_page(slot, bound));
        }
    }
}

/// A copy of a list of color tokens.
pub fn copy_colors(colors: &Vec<String>) -> (copy: Vec<String>)
    ensures
        copy@ == colors@,
{
    let mut copy: Vec<String> = Vec::new();
    let mut index: usize = 0;
    while index < colors.len()
        invariant
            index <= colors.len(),
            copy@ == colors@.take(index as int),
        decreases colors.len() - index,
    {
        copy.push(colors[index].clone());
        index += 1;
    }
    assert(colors@.take(colors.len() as int) =~= colors@);
    copy
}

/// Appends a copy of every frame of `frames` to `target`.
fn append_frames(target: &mut Vec<FrameData>, frames: &Vec<FrameData>)
    ensures
        frames_model(final(target)@) == frames_model(old(target)@) + frames_model(frames@),
        final(target)@.len() == old(target)@.len() + frames@.len(),
{
    let mut index: usize = 0;
    while index < frames.len()
        invariant
            index <= frames.len(),
            target@.len() == old(target)@.len() + index,
            frames_model(target@) == frames_model(old(target)@) + frames_model(frames@).take(
                index as int,
            ),
        decreases frames.len() - index,
    {
        let ghost before = target@;
        target.push(frames[index].duplicate());
        proof {
            let added = frames@[index as int]@;
            assert(frames_model(target@) =~= frames_model(before).push(added));
            assert(frames_model(frames@).take(index + 1) =~= frames_model(frames@).take(
                index as int,
            ).push(added));
        }
        index += 1;
    }
    assert(frames_model(frames@).take(frames.len() as int) =~= frames_model(frames@));
}

impl FrameData {
    /// An independent copy with the same value.
    pub fn duplicate(&self) -> (copy: Self)
        ensures
            copy@ == self@,
    {
        FrameData { frame_index: self.frame_index, frame_rgb: copy_colors(&self.frame_rgb) }
    }
}

impl FramesData {
    /// An independent copy with the same value; nothing is shared with
    /// `self`.
    pub fn duplicate(&self) -> (copy: Self)
        ensures
            copy@ == self@,
    {
        let mut frame_data: Vec<FrameData> = Vec::new();
        append_frames(&mut frame_data, &self.frame_data);
        FramesData { valid: self.valid, frame_num: self.frame_num, frame_data }
    }
}

impl LEDConfiguration {
    /// Position of the first page whose index is `page_index`.
    pub fn position_of(&self, page_index: u32) -> (found: Option<usize>)
        ensures
            found is Some == self@.has_page(page_index),
            found matches Some(position) ==> {
                &&& self@.is_first_page(page_index, position as int)
                &&& self@.page_position(page_index) == position
            },
    {
        let mut index: usize = 0;
        while index < self.page_data.len()
            invariant
                index <= self.page_data.len(),
                forall|j: int| 0 <= j < index ==> (#[trigger] self@.page_data[j]).page_index != page_index,
            decreases self.page_data.len() - index,
        {
            if self.page_data[index].page_index == page_index {
                proof {
                    assert(self@.page_data[index as int].page_index == page_index);
                    self@.lemma_first_page_is_position(page_index, index as int);
                }
                return Some(index);
            }
            index += 1;
        }
        None
    }

    /// The page at slot `page_index`: the first page with that index, or
    /// `None` when no page has it.
    pub fn get_page_by_index(&self, page_index: u32) -> (found: Option<&PageData>)
        ensures
            match found {
                Some(page) => Some(page@),
                None => None,
            } == self@.find_page(page_index),
    {
        match self.position_of(page_index) {
            Some(position) => Some(&self.page_data[position]),
            None => None,
        }
    }

    /// Merges `source_page` into the page at slot `target_index`.
    ///
    /// The document becomes what [`DocumentModel::merge_page`] describes;
    /// on an error it is left as it was.
    pub fn merge_page(&mut self, target_index: u32, source_page: &PageData, action: &str) -> (outcome:
        Result<(), MergeError>)
        ensures
            match old(self)@.merge_page(target_index, source_page@, action@) {
                Ok(merged) => outcome is Ok && final(self)@ == merged,
                Err(reason) => {
                    &&& outcome matches Err(error)
                    &&& error@ == reason
                    &&& final(self)@ == old(self)@
                },
            },
    {
        let position: usize = match self.position_of(target_index) {
            Some(position) => position,
            None => {
                return Err(MergeError::TargetSlotNotFound(target_index));
            },
        };
        match MergeAction::parse(action) {
            None => Err(MergeError::UnknownAction(action.to_owned())),
            Some(known) => {
                self.apply_at(position, source_page, known);
                Ok(())
            },
        }
    }

    /// Applies `action` to the page standing at `position`, with
    /// `source_page` as the page to take frames from.
    pub fn apply_at(&mut self, position: usize, source_page: &PageData, action: MergeAction)
        requires
            position < old(self)@.page_data.len(),
        ensures
            final(self)@ == old(self)@.with_page(
                position as int,
                old(self)@.page_data[position as int].merged_with(source_page@, action),
            ),
    {
        match action {
            MergeAction::Keep => {
                assert(self@.page_data =~= self@.page_data.update(
                    position as int,
                    self@.page_data[position as int],
                ));
            },
            MergeAction::Replace => {
                let frames = source_page.frames.duplicate();
                self.page_data[position].frames = frames;
                assert(self@.page_data =~= old(self)@.page_data.update(
                    position as int,
                    old(self)@.page_data[position as int].merged_with(source_page@, action),
                ));
            },
            MergeAction::Combine => {
                let mut combined: Vec<FrameData> = Vec::new();
                append_frames(&mut combined, &self.page_data[position].frames.frame_data);
                append_frames(&mut combined, &source_page.frames.frame_data);
                let frame_count: u32 = #[verifier::truncate]
                (combined.len() as u32);
                self.page_data[position].frames.frame_data = combined;
                self.page_data[position].frames.frame_num = Some(frame_count);
                assert(self@.page_data =~= old(self)@.page_data.update(
                    position as int,
                    old(self)@.page_data[position as int].merged_with(source_page@, action),
                ));
            },
        }
    }
}

} // verus!
