//! Merge engine for LED animation profile documents.
//!
//! A document holds ordered pages, each addressed by a slot number and
//! carrying an ordered list of color frames. The engine applies a list of
//! per-slot instructions (`keep`, `replace`, `combine`) to a base document,
//! pulling pages from other documents supplied by a configuration store.
//! Contracts are stated over the mathematical view of the data, and every
//! function is proved against its contract. The store is the one thing
//! taken on trust: nothing is assumed of what it answers.

pub mod document;
pub mod error;
pub mod json;
pub mod laws;
pub mod load;
pub mod mapping;
pub mod merge;
pub mod repository;
pub mod text;
pub mod wire;

pub use document::{FrameData, FramesData, LEDConfiguration, PageData};
pub use error::{DecodeError, MergeError};
pub use load::LoadConfigurationUseCase;
pub use mapping::{MergeAction, MergeMapping};
pub use merge::MergeConfigurationsUseCase;
pub use repository::ConfigurationRepository;
