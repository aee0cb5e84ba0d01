//! Frequencies of three-word sequences kept in three projections of one table,
//! the text artifacts that queries and inserts leave behind, and the timing
//! statistics read back from those artifacts.
pub mod query;
pub mod reader;
pub mod render;
pub mod specs;
pub mod stats;
pub mod store;
pub mod text;
pub mod writer;
