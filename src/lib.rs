//! Synchronises wind-power reference data (regions, and turbines with their counties,
//! manufacturers, models, image sources and projects) into a relational store.
//!
//! Input rows are normalised (`normalize`), deduplicated by natural key (`dedup`,
//! `entities`) and turned into a dependency-ordered list of writes (`plan`). The meaning
//! of each write is given by an in-memory store (`store`, `table`), over which `laws`
//! proves idempotence, reconciliation and referential integrity of a run. The rows read
//! back for serving are in `models` and `records`; the API's decisions in `server`.

pub mod dedup;
pub mod entities;
pub mod laws;
pub mod models;
pub mod normalize;
pub mod pipeline;
pub mod plan;
pub mod records;
pub mod server;
pub mod stages;
pub mod store;
pub mod table;
