//! Verified core of a synthetic log emitter: message generation, batching,
//! configuration defaults, dashboard summaries and the request bodies and SQL
//! statements that the sinks send.

pub mod text;
pub mod log_entry;
pub mod buffer;
pub mod emitter;
pub mod config;
pub mod sink;
pub mod placeholders;
