//! Time tracking for tasks: the ledger of work intervals, the task lifecycle
//! that drives it, and the report that apportions worked time to buckets.

pub mod comment;
pub mod duration;
pub mod error;
pub mod filters;
pub mod history;
pub mod ledger;
pub mod lifecycle;
pub mod metrics;
pub mod models;
pub mod overlap;
pub mod query;
pub mod settings;
pub mod status;
pub mod tags;
pub mod task;
pub mod timestamp;
pub mod upsert;
