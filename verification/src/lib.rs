//! Bulk reverse DNS (PTR) resolution: resolver selection, per-lookup retry
//! control, rate limiting and bounded dispatch, with machine-checked contracts.

pub mod cli;
pub mod dns;
pub mod error;
pub mod output;
pub mod run;
pub mod text;

pub use cli::{Args, LogLevel, OutputFormat};
pub use dns::{DnsResolver, IpAddress, LookupResult, LookupStatus};
pub use error::ReverDNSError;
