//! Connection supervision and request telemetry for a content-serving backend.
//!
//! The library holds the decisions and the aggregation logic; the program
//! around it performs network I/O, sleeps and persistence.

pub mod admin;
pub mod api;
pub mod capture;
pub mod config;
pub mod errors;
pub mod posts;
pub mod records;
pub mod store;
pub mod supervisor;
pub mod tracker;
