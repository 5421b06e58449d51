//! Run settings: what to look up, how, and where the results go.

use crate::error::{ErrorView, ReverDNSError};
use vstd::prelude::*;
use vstd::string::StringExecFns;

verus! {

/// The format in which results are written.
#[derive(Debug, Clone, Copy, PartialEq, Eq, Structural)]
pub enum OutputFormat {
    Json,
    Csv,
}

impl OutputFormat {
    /// The name of the format.
    pub open spec fn name(self) -> Seq<char> {
        match self {
            OutputFormat::Json => "json"@,
            OutputFormat::Csv => "csv"@,
        }
    }

    /// The name of the format.
    pub fn to_string(&self) -> (s: String)
        ensures
            s@ == self.name(),
    {
        match self {
            OutputFormat::Json => String::from_str("json"),
            OutputFormat::Csv => String::from_str("csv"),
        }
    }
}

/// How much is logged.
#[derive(Debug, Clone, Copy, PartialEq, Eq, Structural)]
pub enum LogLevel {
    Trace,
    Debug,
    Info,
    Warn,
    Error,
}

impl LogLevel {
    /// The name of the level.
    pub open spec fn name(self) -> Seq<char> {
        match self {
            LogLevel::Trace => "trace"@,
            LogLevel::Debug => "debug"@,
            LogLevel::Info => "info"@,
            LogLevel::Warn => "warn"@,
            LogLevel::Error => "error"@,
        }
    }

    /// The name of the level.
    pub fn to_string(&self) -> (s: String)
        ensures
            s@ == self.name(),
    {
        match self {
            LogLevel::Trace => String::from_str("trace"),
            LogLevel::Debug => String::from_str("debug"),
            LogLevel::Info => String::from_str("info"),
            LogLevel::Warn => String::from_str("warn"),
            LogLevel::Error => String::from_str("error"),
        }
    }
}

/// The settings of one run.
#[derive(Debug, Clone)]
pub struct Args {
    /// IP addresses to look up.
    pub ips: Vec<String>,
    /// A file with further IP addresses, one per line.
    pub input: Option<String>,
    /// Where the results go; standard output if absent.
    pub output: Option<String>,
    pub format: OutputFormat,
    /// Custom resolver addresses.
    pub resolver: Vec<String>,
    /// Time limit of one lookup attempt, in seconds.
    pub timeout: u64,
    /// How many lookups may be in flight at once.
    pub concurrency: usize,
    /// Lookups per second.
    pub rate_limit: u32,
    pub dns_over_https: bool,
    pub doh_provider: Option<String>,
    /// Retries after the first attempt of a lookup.
    pub retry_count: u32,
    /// Base of the backoff between attempts, in milliseconds.
    pub retry_backoff: u64,
    pub log_level: LogLevel,
    pub stats: bool,
    pub web_server: bool,
    pub web_port: u16,
}

impl Args {
    /// The first setting that fails validation, as the message reported for
    /// it; `None` where all settings pass.
    pub open spec fn violation(&self) -> Option<Seq<char>> {
        if self.ips@.len() == 0 && self.input is None {
            Some("Either provide IPs as arguments or use --input flag"@)
        } else if self.concurrency == 0 {
            Some("Concurrency must be greater than 0"@)
        } else if self.rate_limit == 0 {
            Some("Rate limit must be greater than 0"@)
        } else if self.timeout == 0 {
            Some("Timeout must be greater than 0"@)
        } else {
            None
        }
    }

    /// Checks the settings before anything else is done: there must be
    /// something to look up, and concurrency, rate limit and timeout must
    /// not be zero.
    pub fn validate(&self) -> (r: Result<(), ReverDNSError>)
        ensures
            r is Ok <==> self.violation() is None,
            r matches Err(e) ==> e@ == ErrorView::ConfigError(self.violation().unwrap()),
    {
        if self.ips.len() == 0 && self.input.is_none() {
            return Err(
                ReverDNSError::ConfigError(
                    String::from_str("Either provide IPs as arguments or use --input flag"),
                ),
            );
        }
        if self.concurrency == 0 {
            return Err(
                ReverDNSError::ConfigError(String::from_str("Concurrency must be greater than 0")),
            );
        }
        if self.rate_limit == 0 {
            return Err(
                ReverDNSError::ConfigError(String::from_str("Rate limit must be greater than 0")),
            );
        }
        if self.timeout == 0 {
            return Err(
                ReverDNSError::ConfigError(String::from_str("Timeout must be greater than 0")),
            );
        }
        Ok(())
    }
}

} // verus!
