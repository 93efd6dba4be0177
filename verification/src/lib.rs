//! Cluster audit library: a result model for heterogeneous audit units, a
//! deterministic scoring and aggregation engine, and the readiness protocol
//! for collecting per-host snapshots from independently running agents.
//!
//! Scores are carried as integers in thousandths of a point (0 to 100_000
//! stands for 0.0 to 100.0 points); cross-domain weights are carried in
//! tenths, so that all scoring arithmetic is exact.

pub mod types;
pub mod checks;
pub mod text;
pub mod scoring;
pub mod issue_codes;
pub mod node_types;
pub mod collector;
pub mod generator;
pub mod md_export;
pub mod report_resource;
pub mod cli;
pub mod resource_quantity;
pub mod inspections;
