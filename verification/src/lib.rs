//! Kafka operations toolkit: decoding of the broker's offset-commit log,
//! aggregation of consumer-group commit state, the decisions of the streaming
//! consumption engine, and watermark caching with lag arithmetic.

pub mod client;
pub mod cmd;
pub mod config;
pub mod errors;
pub mod text;
