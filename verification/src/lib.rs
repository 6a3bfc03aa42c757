//! Loading of rustdoc JSON documents of several format revisions behind one
//! interface: detection of a document's revision, resolution of the package
//! that a document belongs to, the revision-tagged storage, index and adapter
//! values, and the list transforms that the dispatch-source generator offers
//! to its templates.

pub mod decimal;
pub mod detect;
pub mod error;
pub mod generator;
pub mod json;
pub mod metadata;
pub mod parser;
pub mod revision;
pub mod text;
pub mod versioned;

pub use error::LoadingError;
pub use parser::load_rustdoc;
pub use versioned::{VersionedIndex, VersionedRustdocAdapter, VersionedStorage};
