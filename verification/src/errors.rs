//! Startup errors: an invalid filter pattern or an invalid seed URL is fatal
//! before any task runs. Per-URL fetch failures are not errors of the run;
//! they are recorded by the caller and never abort the crawl.

use vstd::prelude::*;

verus! {

/// Why a crawl could not be configured.
#[derive(Debug)]
pub enum ConfigError {
    /// A whitelist pattern is not a valid regular expression.
    InvalidWhitelist { message: String },
    /// A blacklist pattern is not a valid regular expression.
    InvalidBlacklist { message: String },
    /// A seed link is not a valid absolute URL.
    InvalidSeedUrl { url: String },
}

impl ConfigError {
    /// A short description of the error, for the caller to print.
    pub fn describe(&self) -> (r: &str)
        ensures
            (self matches ConfigError::InvalidWhitelist { .. }) ==> r@ == "invalid whitelist regex"@,
            (self matches ConfigError::InvalidBlacklist { .. }) ==> r@ == "invalid blacklist regex"@,
            (self matches ConfigError::InvalidSeedUrl { .. }) ==> r@ == "invalid seed url"@,
    {
        proof {
            reveal_strlit("invalid whitelist regex");
            reveal_strlit("invalid blacklist regex");
            reveal_strlit("invalid seed url");
        }
        match self {
            ConfigError::InvalidWhitelist { .. } => "invalid whitelist regex",
            ConfigError::InvalidBlacklist { .. } => "invalid blacklist regex",
            ConfigError::InvalidSeedUrl { .. } => "invalid seed url",
        }
    }
}

} // verus!
