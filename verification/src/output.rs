//! The batch accumulator and the two search back ends.

pub mod azure_search_output;
pub mod batch;
pub mod elasticsearch_output;
pub mod flush;
pub mod search_engine;
