//! Process configuration, modeled as explicit immutable values.
//!
//! The defaults here are plain constants. Layering a config file or the
//! environment over them is the embedding program's business; no code in
//! this crate reads ambient state.

use vstd::prelude::*;

verus! {

/// Store connection configuration.
#[derive(Debug, Clone)]
pub struct ClickHouseConfig {
    /// Store URL, e.g. "http://localhost:8123".
    pub url: String,
    /// Database name.
    pub database: String,
    /// Username, if the store needs one.
    pub username: Option<String>,
    /// Password, if the store needs one.
    pub password: Option<String>,
    /// Connection pool size.
    pub pool_size: u32,
}

impl ClickHouseConfig {
    /// The built-in store defaults.
    pub open spec fn is_default(&self) -> bool {
        &&& self.url@ == "http://localhost:8123"@
        &&& self.database@ == "default"@
        &&& self.username is None
        &&& self.password is None
        &&& self.pool_size == 10
    }
}

impl Default for ClickHouseConfig {
    /// A local store, default database, no credentials, pool of 10.
    fn default() -> (r: Self)
        ensures
            r.is_default(),
    {
        ClickHouseConfig {
            url: "http://localhost:8123".to_owned(),
            database: "default".to_owned(),
            username: None,
            password: None,
            pool_size: 10,
        }
    }
}

/// HTTP query API configuration.
#[derive(Debug, Clone)]
pub struct ApiConfig {
    /// Host to bind to.
    pub host: String,
    /// Port to listen on.
    pub port: u16,
    /// Request timeout in seconds.
    pub timeout_secs: u64,
}

impl ApiConfig {
    /// The built-in API defaults.
    pub open spec fn is_default(&self) -> bool {
        &&& self.host@ == "0.0.0.0"@
        &&& self.port == 8080
        &&& self.timeout_secs == 30
    }
}

impl Default for ApiConfig {
    /// Listen everywhere on port 8080, 30 second timeout.
    fn default() -> (r: Self)
        ensures
            r.is_default(),
    {
        ApiConfig { host: "0.0.0.0".to_owned(), port: 8080, timeout_secs: 30 }
    }
}

/// Tool-invocation endpoint configuration.
#[derive(Debug, Clone)]
pub struct McpConfig {
    /// Host to bind to.
    pub host: String,
    /// Port to listen on.
    pub port: u16,
    /// Whether the endpoint is enabled.
    pub enabled: bool,
}

impl McpConfig {
    /// The built-in tool-endpoint defaults.
    pub open spec fn is_default(&self) -> bool {
        &&& self.host@ == "0.0.0.0"@
        &&& self.port == 8081
        &&& self.enabled
    }
}

impl Default for McpConfig {
    /// Listen everywhere on port 8081, enabled.
    fn default() -> (r: Self)
        ensures
            r.is_default(),
    {
        McpConfig { host: "0.0.0.0".to_owned(), port: 8081, enabled: true }
    }
}

/// Data retention configuration.
#[derive(Debug, Clone)]
pub struct RetentionConfig {
    /// Log retention in days.
    pub log_retention_days: u32,
    /// Metrics retention in days.
    pub metrics_retention_days: u32,
}

impl RetentionConfig {
    /// The built-in retention defaults.
    pub open spec fn is_default(&self) -> bool {
        &&& self.log_retention_days == 30
        &&& self.metrics_retention_days == 90
    }
}

impl Default for RetentionConfig {
    /// Keep logs 30 days and metrics 90.
    fn default() -> (r: Self)
        ensures
            r.is_default(),
    {
        RetentionConfig { log_retention_days: 30, metrics_retention_days: 90 }
    }
}

/// The whole process configuration.
#[derive(Debug, Clone)]
pub struct Config {
    /// Store connection settings.
    pub clickhouse: ClickHouseConfig,
    /// Query API settings.
    pub api: ApiConfig,
    /// Tool-endpoint settings.
    pub mcp: McpConfig,
    /// Retention settings.
    pub retention: RetentionConfig,
}

impl Config {
    /// Every section at its built-in default.
    pub open spec fn is_default(&self) -> bool {
        &&& self.clickhouse.is_default()
        &&& self.api.is_default()
        &&& self.mcp.is_default()
        &&& self.retention.is_default()
    }
}

impl Default for Config {
    /// Every section at its built-in default.
    fn default() -> (r: Self)
        ensures
            r.is_default(),
    {
        Config {
            clickhouse: ClickHouseConfig::default(),
            api: ApiConfig::default(),
            mcp: McpConfig::default(),
            retention: RetentionConfig::default(),
        }
    }
}

} // verus!
