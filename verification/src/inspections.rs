//! The audit units: one verified classifier per domain, each a pure
//! function from plain cluster facts to checks and findings. Callers
//! perform the list queries, convert the objects to the fact records
//! here, and assemble each unit's result from the classifier's output
//! through `checks::summarize_checks` and `checks::mean_check_score`.

pub mod support;
pub mod nodes;
pub mod pods;
pub mod storage;
pub mod resources;
pub mod network;
pub mod security;
pub mod autoscaling;
pub mod batch;
pub mod policies;
pub mod observability;
pub mod control_plane;
pub mod namespace_summary;
pub mod upgrade;
pub mod certificates;
