//! Failures reported by the merge engine and by the document decoder.

use vstd::prelude::*;

verus! {

/// Why a merge stopped.
#[derive(Clone, Debug, PartialEq, Eq)]
pub enum MergeError {
    /// The instruction for this slot names an action outside the closed set,
    /// or needs a source file and has none.
    InvalidInstruction(u32),
    /// The base document has no page whose index is this slot.
    TargetSlotNotFound(u32),
    /// The action text is none of `keep`, `replace`, `combine`.
    UnknownAction(String),
    /// The configuration store failed; its message is passed on unchanged.
    Store(String),
}

/// Mathematical value of a [`MergeError`].
pub enum MergeErrorModel {
    InvalidInstruction(u32),
    TargetSlotNotFound(u32),
    UnknownAction(Seq<char>),
    Store(Seq<char>),
}

impl View for MergeError {
    type V = MergeErrorModel;

    open spec fn view(&self) -> MergeErrorModel {
        match self {
            MergeError::InvalidInstruction(slot) => MergeErrorModel::InvalidInstruction(*slot),
            MergeError::TargetSlotNotFound(slot) => MergeErrorModel::TargetSlotNotFound(*slot),
            MergeError::UnknownAction(action) => MergeErrorModel::UnknownAction(action@),
            MergeError::Store(message) => MergeErrorModel::Store(message@),
        }
    }
}

/// Why a document could not be decoded from its wire form.
#[derive(Clone, Copy, Debug, PartialEq, Eq)]
pub enum DecodeError {
    /// A required structural field is absent.
    MissingField,
    /// A numeric field holds text that is not a base-10 integer literal.
    NotANumber,
    /// A numeric field holds an integer, or a literal, above `u32::MAX`.
    NumberTooLarge,
    /// A numeric field holds something other than an unsigned integer, text
    /// or a boolean.
    UnsupportedShape,
}

} // verus!
