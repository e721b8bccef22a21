//! A bounded-concurrency batch pipeline built around a size-bounded
//! least-recently-used result cache.
//!
//! The heart of the crate is [`cache::HighPerformanceCache`], a fixed-capacity
//! key-value store with least-recently-used eviction and hit/miss accounting,
//! and [`processor::FileProcessor`], which runs a batch of work items against
//! that cache and a compressing transform, collecting one result per item in
//! input order together with aggregate run metrics. Around them sit a
//! compression utility, a latency analyzer and an operation monitor.

pub mod analyzer;
pub mod cache;
pub mod compress;
pub mod monitor;
pub mod processor;
pub mod timing;
