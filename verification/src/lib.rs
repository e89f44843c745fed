//! A verified core for a PDF size-optimization pipeline.
//!
//! The crate models the decision policy of the pipeline — preset to
//! settings mapping, content classification, the image optimization
//! pass, validation, batch aggregation, and title-based file naming —
//! over a plain in-memory model of a PDF object graph.  Parsing,
//! serialization and the image codecs themselves are outside
//! collaborators reached through a few trusted wrappers.

pub mod analyzer;
pub mod batch;
pub mod document;
pub mod image_optimizer;
pub mod naming;
pub mod pipeline;
pub mod policy;
pub mod store;
pub mod utils;
