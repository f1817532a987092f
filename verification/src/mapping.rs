//! Merge instructions: one directive per target slot.

use vstd::prelude::*;
use crate::text::text_equals;

verus! {

/// The closed set of merge actions.
#[derive(Clone, Copy, Debug, PartialEq, Eq, Structural)]
pub enum MergeAction {
    /// Leave the target page as it is.
    Keep,
    /// Overwrite the target page's frames with the source page's frames.
    Replace,
    /// Append the source page's frames to the target page's frames.
    Combine,
}

/// The action that a piece of text names, if any. The match is exact: no
/// trimming and no case folding.
pub open spec fn action_named(text: Seq<char>) -> Option<MergeAction> {
    if text == "keep"@ {
        Some(MergeAction::Keep)
    } else if text == "replace"@ {
        Some(MergeAction::Replace)
    } else if text == "combine"@ {
        Some(MergeAction::Combine)
    } else {
        None
    }
}

impl MergeAction {
    /// Reads an action from its text.
    pub fn parse(text: &str) -> (action: Option<MergeAction>)
        ensures
            action == action_named(text@),
    {
        if text_equals(text, "keep") {
            Some(MergeAction::Keep)
        } else if text_equals(text, "replace") {
            Some(MergeAction::Replace)
        } else if text_equals(text, "combine") {
            Some(MergeAction::Combine)
        } else {
            None
        }
    }
}

/// One merge directive: what to do with the base page at `slot`.
#[derive(Clone, Debug, PartialEq, Eq)]
pub struct MergeMapping {
    /// Index of the target page in the base document.
    pub slot: u32,
    /// `keep`, `replace` or `combine`; anything else makes the instruction
    /// invalid.
    pub action: String,
    /// Location of the document to take a page from. Needed by `replace`
    /// and `combine`, ignored by `keep`.
    pub source_file: Option<String>,
    /// Index of the page to take from the source document; when absent the
    /// source document's first page is taken.
    pub target_slot: Option<u32>,
}

/// Mathematical value of a [`MergeMapping`].
pub struct MappingModel {
    pub slot: u32,
    pub action: Seq<char>,
    pub source_file: Option<Seq<char>>,
    pub target_slot: Option<u32>,
}

impl MappingModel {
    /// An instruction is valid when it keeps, or when it replaces or combines
    /// and names a source file. The target slot never matters.
    pub open spec fn is_valid(self) -> bool {
        match action_named(self.action) {
            Some(MergeAction::Keep) => true,
            Some(_) => self.source_file is Some,
            None => false,
        }
    }
}

impl View for MergeMapping {
    type V = MappingModel;

    open spec fn view(&self) -> MappingModel {
        MappingModel {
            slot: self.slot,
            action: self.action@,
            source_file: match self.source_file {
                Some(path) => Some(path@),
                None => None,
            },
            target_slot: self.target_slot,
        }
    }
}

impl MergeMapping {
    /// An instruction for `slot` with the given action, no source file and
    /// no target slot.
    pub fn new(slot: u32, action: String) -> (mapping: Self)
        ensures
            mapping@ == (MappingModel { slot, action: action@, source_file: None, target_slot: None }),
    {
        Self { slot, action, source_file: None, target_slot: None }
    }

    /// The same instruction, taking its page from `source_file`.
    pub fn with_source_file(self, source_file: String) -> (mapping: Self)
        ensures
            mapping@ == (MappingModel { source_file: Some(source_file@), ..self@ }),
    {
        let mut mapping = self;
        mapping.source_file = Some(source_file);
        mapping
    }

    /// The same instruction, taking the source page at `target_slot`.
    pub fn with_target_slot(self, target_slot: u32) -> (mapping: Self)
        ensures
            mapping@ == (MappingModel { target_slot: Some(target_slot), ..self@ }),
    {
        let mut mapping = self;
        mapping.target_slot = Some(target_slot);
        mapping
    }

    /// Whether the finished instruction is valid.
    pub fn is_valid(&self) -> (valid: bool)
        ensures
            valid == self@.is_valid(),
    {
        match MergeAction::parse(self.action.as_str()) {
            Some(MergeAction::Keep) => true,
            Some(_) => self.source_file.is_some(),
            None => false,
        }
    }
}

} // verus!
