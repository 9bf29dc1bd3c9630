//! Mempool transaction watcher: selector-driven calldata decoding, the
//! bounded handoff queue between the fetch and consume stages, the webhook
//! rate limiter and the reconnect backoff, each with its contract.

pub mod word;
pub mod decoder;
pub mod queue;
pub mod rate_limit;
pub mod ingestor;
pub mod action;
pub mod alert;
