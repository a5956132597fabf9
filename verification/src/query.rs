//! The attribute catalogue and the query pipeline stages: per-entity
//! attributes, comparison and boolean filters, samplers and statistics.

pub mod commit;
pub mod get;
pub mod path;
pub mod project;
pub mod require;
pub mod sample;
pub mod select;
pub mod stats;
pub mod user;
