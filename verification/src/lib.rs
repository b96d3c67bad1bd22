//! Verified core of a telemetry ingestion service.
//!
//! A device submits a batch of metrics, each carrying channel readings; the
//! library resolves or creates the identity rows of the device -> sensor ->
//! channel hierarchy and records each reading, last write winning, all as one
//! atomic unit. The relational store itself and the HTTP transport live
//! outside; the logic that decides what is inserted, looked up and returned
//! is verified here.

pub mod data;
pub mod device_uid;
pub mod laws;
pub mod machine;
pub mod pipeline;
pub mod store;
