//! Verified core of a link crawler: a deduplicating frontier, a
//! whitelist/blacklist URL filter, link extraction and normalization, a
//! live-updatable runtime configuration snapshot, and the scheduling logic
//! that bounds in-flight work and detects quiescence.

pub mod cli;
pub mod config;
pub mod dedup;
pub mod errors;
pub mod orchestrator;
pub mod scraper;
pub mod urls;
