use vstd::prelude::*;
use crate::error::ServiceError;
use crate::text::same_text;

verus! {

pub struct DatabaseConfig {
    pub username: String,
    pub password: String,
    pub url: String,
}

pub struct BindingConfig {
    pub port: u16,
    pub host: String,
}

pub struct TrackingConfig {
    pub enabled: bool,
}

/// Process-wide settings, read once at startup and never changed.
pub struct Config {
    pub source: String,
    pub database: DatabaseConfig,
    pub binding: BindingConfig,
    pub tracking: TrackingConfig,
    pub log_level: String,
    /// How long a cached candidate set stays fresh.
    pub cache_ttl_seconds: u64,
    /// Capacity of the channel between a stream's producer and its consumer.
    pub channel_capacity: usize,
    /// Most streaming sessions admitted at once.
    pub concurrency_limit: usize,
    /// Prefix of every key the service writes to the cache store.
    pub cache_key_prefix: String,
}

/// Where canned content comes from.
#[derive(Debug, Clone, Copy, PartialEq, Eq, Structural)]
pub enum SourceMode {
    File,
    Database,
}

pub open spec fn source_mode_of(name: Seq<char>) -> Result<SourceMode, ServiceError> {
    if name == "file"@ {
        Ok(SourceMode::File)
    } else if name == "database"@ {
        Ok(SourceMode::Database)
    } else {
        Err(ServiceError::InvalidSourceMode)
    }
}

/// Reads the configured source name: `file` or `database`; any other name
/// is `InvalidSourceMode`.
pub fn parse_source_mode(name: &str) -> (r: Result<SourceMode, ServiceError>)
    ensures
        r == source_mode_of(name@),
{
    if same_text(name, "file") {
        Ok(SourceMode::File)
    } else if same_text(name, "database") {
        Ok(SourceMode::Database)
    } else {
        Err(ServiceError::InvalidSourceMode)
    }
}

impl Config {
    /// The source mode this configuration names.
    pub fn source_mode(&self) -> (r: Result<SourceMode, ServiceError>)
        ensures
            r == source_mode_of(self.source@),
    {
        parse_source_mode(self.source.as_str())
    }
}

} // verus!
