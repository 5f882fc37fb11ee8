//! Container-image tag computation for a source-control reference.
//!
//! A reference is classified ([`refs`]), expanded into version labels
//! ([`version`]) and crossed with the registries into one comma-separated tag
//! string ([`tags`]). [`pipeline`] runs the three steps on the inputs of one
//! run.

pub mod pipeline;
pub mod refs;
pub mod tags;
pub mod text;
pub mod version;

pub use pipeline::{compute_tags, Input};
pub use refs::extract_version;
pub use tags::generate_tags;
pub use version::{create_versions, expand_version, SemanticVersion, VersionError};
