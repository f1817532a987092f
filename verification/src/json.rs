//! The JSON value type that documents carry as uninterpreted metadata.

use vstd::prelude::*;

verus! {

/// `serde_json::Value`, declared so that documents can hold metadata blobs.
/// Nothing inside a value is visible to proofs: a blob is carried, compared
/// by identity of value, and never inspected.
#[verifier::external_type_specification]
#[verifier::external_body]
pub struct ExJsonValue(serde_json::Value);

/// `<serde_json::Value as Clone>::clone`: the derived structural copy, which
/// yields a value equal to the one it was taken from.
pub assume_specification[ <serde_json::Value as Clone>::clone ](
    value: &serde_json::Value,
) -> (copy: serde_json::Value)
    ensures
        copy == *value,
;

} // verus!
