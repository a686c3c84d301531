//! Background command task registry: task records, status snapshots,
//! an adaptive duration estimator and capacity-bounded retention.
//!
//! Everything here is plain, single-threaded state. Time enters as
//! millisecond readings of a monotonic clock supplied by the caller; the
//! process spawning, output streaming and locking live with the embedding
//! application.

pub mod text;
pub mod task;
pub mod estimator;
pub mod models;
pub mod store;
pub mod forge_commands;
pub mod paths;
pub mod hardware_profile;
