//! The resolution engine: addresses, resolver selection, retry control,
//! rate limiting and bounded dispatch.

pub mod ip;
pub mod rate;
pub mod resolver;
pub mod result;
pub mod retry;

pub use ip::IpAddress;
pub use rate::RateLimiter;
pub use resolver::{DnsResolver, DohProvider, NameServer, Transport};
pub use result::{LookupResult, LookupStatus};
pub use retry::{AttemptOutcome, Lookup, LookupStep, RetryState};
