//! Construction-time options of the lookup engine.

use std::time::Duration;
use vstd::prelude::*;

verus! {

/// The span of time that `Duration::from_secs` makes of a number of whole seconds.
pub uninterp spec fn whole_seconds(secs: u64) -> Duration;

/// `core::time::Duration::from_secs`: the result is a function of the number
/// of seconds alone; it never fails.
pub assume_specification[ Duration::from_secs ](secs: u64) -> (span: Duration)
    ensures
        span == whole_seconds(secs),
;

/// Seconds a request may take when nothing else is configured.
pub const DEFAULT_TIMEOUT_SECS: u64 = 3;

/// Number of addresses the cache holds when nothing else is configured.
pub const DEFAULT_CACHE_SIZE: usize = 100;

/// IpInfo structure configuration.
pub struct IpInfoConfig {
    /// IPinfo access token.
    pub token: Option<String>,
    /// The timeout of HTTP requests. (default: 3 seconds)
    pub timeout: Duration,
    /// The size of the LRU cache. (default: 100 IPs)
    pub cache_size: usize,
    /// The file path of `countries.json`
    pub countries_file_path: Option<String>,
    /// The file path of `eu.json`
    pub eu_file_path: Option<String>,
    /// The file path of `flags.json`
    pub country_flags_file_path: Option<String>,
    /// The file path of `currencies.json`
    pub country_currencies_file_path: Option<String>,
    /// The file path of `continents.json`
    pub continents_file_path: Option<String>,
}

impl Default for IpInfoConfig {
    fn default() -> (config: Self)
        ensures
            config.token is None,
            config.timeout == whole_seconds(DEFAULT_TIMEOUT_SECS),
            config.cache_size == DEFAULT_CACHE_SIZE,
            config.countries_file_path is None,
            config.eu_file_path is None,
            config.country_flags_file_path is None,
            config.country_currencies_file_path is None,
            config.continents_file_path is None,
    {
        Self {
            token: None,
            timeout: Duration::from_secs(DEFAULT_TIMEOUT_SECS),
            cache_size: DEFAULT_CACHE_SIZE,
            countries_file_path: None,
            eu_file_path: None,
            country_flags_file_path: None,
            country_currencies_file_path: None,
            continents_file_path: None,
        }
    }
}

} // verus!
