//! Configuration settings of the application and their defaults.  Reading
//! them from files and the environment is left to the caller.

use vstd::prelude::*;
use crate::text::owned;

verus! {

/// Application configuration settings
pub struct AppConfig {
    /// Configuration for the Genius API
    pub genius: GeniusConfig,
}

/// Configuration for the Genius API
pub struct GeniusConfig {
    /// API key for the Genius Platform
    pub api_key: Option<String>,
    /// Base URL for the Genius API
    pub base_url: String,
    /// Timeout in seconds for API requests
    pub timeout_secs: u64,
}

/// The text of an optional string.
pub open spec fn opt_text(s: Option<String>) -> Option<Seq<char>> {
    match s {
        Some(v) => Some(v@),
        None => None,
    }
}

impl Clone for GeniusConfig {
    fn clone(&self) -> (r: Self)
        ensures
            opt_text(r.api_key) == opt_text(self.api_key),
            r.base_url@ == self.base_url@,
            r.timeout_secs == self.timeout_secs,
    {
        GeniusConfig {
            api_key: match &self.api_key {
                Some(k) => Some(k.clone()),
                None => None,
            },
            base_url: self.base_url.clone(),
            timeout_secs: self.timeout_secs,
        }
    }
}

impl Clone for AppConfig {
    fn clone(&self) -> (r: Self)
        ensures
            opt_text(r.genius.api_key) == opt_text(self.genius.api_key),
            r.genius.base_url@ == self.genius.base_url@,
            r.genius.timeout_secs == self.genius.timeout_secs,
    {
        AppConfig { genius: self.genius.clone() }
    }
}

impl Default for GeniusConfig {
    /// No key, an empty base URL and no timeout.
    fn default() -> (c: Self)
        ensures
            c.api_key is None,
            c.base_url@ == Seq::<char>::empty(),
            c.timeout_secs == 0,
    {
        GeniusConfig { api_key: None, base_url: String::new(), timeout_secs: 0 }
    }
}

/// Default base URL for the Genius API
pub fn default_genius_api_url() -> (s: String)
    ensures
        s@ == "https://api.genius.example.com"@,
{
    owned("https://api.genius.example.com")
}

/// Default timeout in seconds
pub fn default_timeout_secs() -> (t: u64)
    ensures
        t == 10,
{
    10
}

/// The configuration used when none can be loaded: no API key, the default
/// base URL and the default timeout.
pub fn fallback_config() -> (c: AppConfig)
    ensures
        c.genius.api_key is None,
        c.genius.base_url@ == "https://api.genius.example.com"@,
        c.genius.timeout_secs == 10,
{
    AppConfig {
        genius: GeniusConfig {
            api_key: None,
            base_url: default_genius_api_url(),
            timeout_secs: default_timeout_secs(),
        },
    }
}

} // verus!
