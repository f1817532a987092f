//! The configuration store: where documents come from and go to.

use vstd::prelude::*;
use crate::document::LEDConfiguration;

verus! {

/// A store of documents, addressed by an opaque location string.
///
/// The engine asks it for source documents and never interprets a location.
/// Nothing is assumed of an implementation: a load may fail, and two loads
/// of one location may return different documents.
pub trait ConfigurationRepository {
    /// The document kept at `path`, or the reason why it cannot be had.
    fn load_configuration(&self, path: &str) -> Result<LEDConfiguration, String>;

    /// Keeps `config` at `path`.
    fn save_configuration(&self, config: &LEDConfiguration, path: &str) -> Result<(), String>;
}

} // verus!
