//! An in-memory multilingual dictionary fed from a tabular text feed.
//!
//! The feed parser turns raw tabular text into a validated entry set plus
//! aggregate counters; the dictionary store owns the current dataset and
//! answers `get_entry` and `search` queries, replacing the whole dataset
//! atomically on each successful refresh.

pub mod feed;
pub mod models;
pub mod numbers;
pub mod store;
