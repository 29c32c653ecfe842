//! Verified core of a lightweight server-monitoring agent: the offline
//! ring buffer and reconnection backoff, endpoint parsing, configuration
//! resolution, and the decisions of the collection loop.

pub mod backoff;
pub mod buffer;
pub mod text;
pub mod connectivity;
pub mod config;
pub mod metrics;
pub mod phone_home;
pub mod agent;
pub mod cli;
pub mod updater;
pub mod config_file;
