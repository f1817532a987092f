//! Loading a document through the store.

use vstd::prelude::*;
use crate::document::LEDConfiguration;
use crate::repository::ConfigurationRepository;

verus! {

/// Fetches documents from a store, with no retry and no cache.
pub struct LoadConfigurationUseCase<R: ConfigurationRepository> {
    repository: R,
}

impl<R: ConfigurationRepository> LoadConfigurationUseCase<R> {
    /// The store that documents are read from.
    pub closed spec fn store(&self) -> &R {
        &self.repository
    }

    /// A loader reading from `repository`.
    pub fn new(repository: R) -> (loader: Self)
        ensures
            *loader.store() == repository,
    {
        Self { repository }
    }

    /// Asks the store for the document at `path` and hands its answer on
    /// unchanged: what comes back is what the store's own load said for
    /// this path.
    pub fn execute(&self, path: &str) -> (answer: Result<LEDConfiguration, String>)
        ensures
            call_ensures(R::load_configuration, (self.store(), path), answer),
    {
        self.repository.load_configuration(path)
    }
}

} // verus!
