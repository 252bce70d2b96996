//! The document model, the per-record field transform, and the loading of
//! lines into a back end.

pub mod document;
pub mod loader;
pub mod record;
pub mod transform;
