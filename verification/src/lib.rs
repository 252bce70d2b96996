//! Batching and bulk-upload engine for line-delimited wiki documents.
//!
//! The crate holds the document model, the per-record field transform, the
//! bounded batch accumulator and the decision logic of the two search
//! back ends. Network and file access stay with the caller.

pub mod json;
pub mod loader;
pub mod output;
