//! Operational building blocks of a vector database: latency statistics,
//! shard rebalancing plans, chunked streaming, enhanced error messages,
//! query explanations, snapshot upload bookkeeping, configuration
//! validation and tracer configuration.
pub mod latency;
pub mod text;
pub mod enhanced_error;
pub mod yaml;
pub mod config_validator;
pub mod telemetry;
pub mod explain;
pub mod rebalance;
pub mod snapshot;
pub mod chunking;
pub mod optimizer_cycle;
