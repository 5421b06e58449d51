//! The outcome of one lookup.

use vstd::prelude::*;
use vstd::string::StringExecFns;

verus! {

/// Terminal classification of one lookup.
#[derive(Debug, Clone, Copy, PartialEq, Eq, Structural)]
pub enum LookupStatus {
    Success,
    Failed,
    Timeout,
    RateLimited,
}

impl LookupStatus {
    /// The lowercase name under which the status is rendered.
    pub open spec fn name(self) -> Seq<char> {
        match self {
            LookupStatus::Success => "success"@,
            LookupStatus::Failed => "failed"@,
            LookupStatus::Timeout => "timeout"@,
            LookupStatus::RateLimited => "rate_limited"@,
        }
    }

    /// Renders the status as its lowercase name.
    pub fn to_string(&self) -> (s: String)
        ensures
            s@ == self.name(),
    {
        match self {
            LookupStatus::Success => String::from_str("success"),
            LookupStatus::Failed => String::from_str("failed"),
            LookupStatus::Timeout => String::from_str("timeout"),
            LookupStatus::RateLimited => String::from_str("rate_limited"),
        }
    }
}

/// The text of an optional string.
pub open spec fn opt_text(o: Option<String>) -> Option<Seq<char>> {
    match o {
        Some(s) => Some(s@),
        None => None,
    }
}

/// One outcome per requested IP address.
#[derive(Debug, Clone)]
pub struct LookupResult {
    /// The address as it was given.
    pub ip: String,
    /// The resolved name, without the dot of the root label.
    pub hostname: Option<String>,
    pub status: LookupStatus,
    /// Reserved; reverse lookups leave it absent.
    pub ttl: Option<u32>,
    /// Time from the start of the lookup to its end, retries included.
    pub latency_ms: u128,
    /// Which resolver configuration served the request.
    pub resolver: String,
    /// The last error seen, unless the lookup succeeded.
    pub error: Option<String>,
}

/// The mathematical value of a [`LookupResult`].
pub struct LookupResultView {
    pub ip: Seq<char>,
    pub hostname: Option<Seq<char>>,
    pub status: LookupStatus,
    pub ttl: Option<u32>,
    pub latency_ms: u128,
    pub resolver: Seq<char>,
    pub error: Option<Seq<char>>,
}

impl View for LookupResult {
    type V = LookupResultView;

    open spec fn view(&self) -> LookupResultView {
        LookupResultView {
            ip: self.ip@,
            hostname: opt_text(self.hostname),
            status: self.status,
            ttl: self.ttl,
            latency_ms: self.latency_ms,
            resolver: self.resolver@,
            error: opt_text(self.error),
        }
    }
}

impl LookupResultView {
    /// A result has a hostname exactly when it succeeded, and an error
    /// exactly when it did not.
    pub open spec fn consistent(self) -> bool {
        &&& self.status == LookupStatus::Success <==> self.hostname is Some
        &&& self.status == LookupStatus::Success <==> self.error is None
    }
}

/// The values of a sequence of results.
pub open spec fn result_views(results: Seq<LookupResult>) -> Seq<LookupResultView> {
    Seq::new(results.len(), |i: int| results[i]@)
}

/// How many of the results are successes.
pub open spec fn count_successful(results: Seq<LookupResultView>) -> nat
    decreases results.len(),
{
    if results.len() == 0 {
        0
    } else {
        count_successful(results.drop_last()) + if results.last().status == LookupStatus::Success {
            1nat
        } else {
            0nat
        }
    }
}

impl LookupResult {
    /// Whether the result has a hostname exactly when it succeeded, and an
    /// error exactly when it did not.
    pub fn is_consistent(&self) -> (b: bool)
        ensures
            b == self@.consistent(),
    {
        let success = self.status == LookupStatus::Success;
        success == self.hostname.is_some() && success == self.error.is_none()
    }
}

} // verus!
