//! Bulk repository analysis: parsers for version-control porcelain output, a
//! registry of concurrent clone tasks, and the decisions of a rate-limited
//! client for a hosted code-forge API.

pub mod text;
pub mod types;
pub mod commits;
pub mod blame;
pub mod branches;
pub mod utils;
pub mod registry;
pub mod traits;
pub mod provider;
pub mod client;
pub mod pagination;
pub mod task_status;
pub mod endpoints;
pub mod pull_requests;
pub mod bulk;
