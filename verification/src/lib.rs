//! Query translation and result normalization for an observability store.
//!
//! The crate turns typed query parameters (time range, severity floor,
//! text and service filters, pagination, aggregation settings) into
//! parameterized queries against a columnar time-series store, and maps
//! the raw rows that come back into stable, schema-normalized entities.

pub mod clickhouse;
pub mod config;
pub mod error;
pub mod semantics;
pub mod shim;
pub mod textfmt;
pub mod tools;
pub mod types;

pub use config::Config;
pub use error::Error;
pub use types::{LogEntry, LogSeverity, Metric, MetricType};
