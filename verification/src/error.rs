//! The errors of the library, and their mapping to process exit codes.

use vstd::prelude::*;
use vstd::string::StringExecFns;

verus! {

/// Everything that can go wrong in a run.
#[derive(Debug, Clone, PartialEq, Eq)]
pub enum ReverDNSError {
    /// A resolver reported a failure; carries its message.
    ResolutionFailed(String),
    /// A lookup target that is not an IP address.
    InvalidIpAddress(String),
    /// A lookup attempt exceeded its time limit.
    Timeout,
    NetworkError(String),
    /// An I/O failure; carries its message.
    IoError(String),
    /// A setting that fails the pre-flight validation.
    ConfigError(String),
    /// A failure to render JSON; carries its message.
    SerializationError(String),
    /// A failure to render CSV; carries its message.
    CsvError(String),
    /// A custom resolver that is not an IP address.
    InvalidResolver(String),
    RateLimitExceeded,
    RetryLimitExceeded,
    DoHError(String),
    InvalidFormat(String),
    FileNotFound(String),
    PermissionDenied(String),
    InternalError(String),
    Unknown(String),
}

/// The mathematical value of a [`ReverDNSError`].
pub enum ErrorView {
    ResolutionFailed(Seq<char>),
    InvalidIpAddress(Seq<char>),
    Timeout,
    NetworkError(Seq<char>),
    IoError(Seq<char>),
    ConfigError(Seq<char>),
    SerializationError(Seq<char>),
    CsvError(Seq<char>),
    InvalidResolver(Seq<char>),
    RateLimitExceeded,
    RetryLimitExceeded,
    DoHError(Seq<char>),
    InvalidFormat(Seq<char>),
    FileNotFound(Seq<char>),
    PermissionDenied(Seq<char>),
    InternalError(Seq<char>),
    Unknown(Seq<char>),
}

impl View for ReverDNSError {
    type V = ErrorView;

    open spec fn view(&self) -> ErrorView {
        match self {
            ReverDNSError::ResolutionFailed(m) => ErrorView::ResolutionFailed(m@),
            ReverDNSError::InvalidIpAddress(m) => ErrorView::InvalidIpAddress(m@),
            ReverDNSError::Timeout => ErrorView::Timeout,
            ReverDNSError::NetworkError(m) => ErrorView::NetworkError(m@),
            ReverDNSError::IoError(m) => ErrorView::IoError(m@),
            ReverDNSError::ConfigError(m) => ErrorView::ConfigError(m@),
            ReverDNSError::SerializationError(m) => ErrorView::SerializationError(m@),
            ReverDNSError::CsvError(m) => ErrorView::CsvError(m@),
            ReverDNSError::InvalidResolver(m) => ErrorView::InvalidResolver(m@),
            ReverDNSError::RateLimitExceeded => ErrorView::RateLimitExceeded,
            ReverDNSError::RetryLimitExceeded => ErrorView::RetryLimitExceeded,
            ReverDNSError::DoHError(m) => ErrorView::DoHError(m@),
            ReverDNSError::InvalidFormat(m) => ErrorView::InvalidFormat(m@),
            ReverDNSError::FileNotFound(m) => ErrorView::FileNotFound(m@),
            ReverDNSError::PermissionDenied(m) => ErrorView::PermissionDenied(m@),
            ReverDNSError::InternalError(m) => ErrorView::InternalError(m@),
            ReverDNSError::Unknown(m) => ErrorView::Unknown(m@),
        }
    }
}

impl ErrorView {
    /// Whether a later attempt may succeed where this error occurred.
    pub open spec fn is_retryable(self) -> bool {
        self is Timeout || self is NetworkError || self is RateLimitExceeded
    }

    /// The exit code of a process that stops on this error.
    pub open spec fn exit_code(self) -> int {
        match self {
            ErrorView::InvalidIpAddress(_) => 1,
            ErrorView::ConfigError(_) => 2,
            ErrorView::FileNotFound(_) => 3,
            ErrorView::PermissionDenied(_) => 4,
            ErrorView::Timeout => 5,
            ErrorView::NetworkError(_) => 6,
            ErrorView::RetryLimitExceeded => 7,
            _ => 1,
        }
    }

    /// The line that describes this error to a user.
    pub open spec fn message(self) -> Seq<char> {
        match self {
            ErrorView::ResolutionFailed(m) => "DNS resolution failed: "@ + m,
            ErrorView::InvalidIpAddress(m) => "Invalid IP address: "@ + m,
            ErrorView::Timeout => "Timeout during DNS lookup"@,
            ErrorView::NetworkError(m) => "Network error: "@ + m,
            ErrorView::IoError(m) => "IO error: "@ + m,
            ErrorView::ConfigError(m) => "Configuration error: "@ + m,
            ErrorView::SerializationError(m) => "Serialization error: "@ + m,
            ErrorView::CsvError(m) => "CSV error: "@ + m,
            ErrorView::InvalidResolver(m) => "Invalid resolver: "@ + m,
            ErrorView::RateLimitExceeded => "Rate limit exceeded"@,
            ErrorView::RetryLimitExceeded => "Retry limit exceeded"@,
            ErrorView::DoHError(m) => "DNS-over-HTTPS error: "@ + m,
            ErrorView::InvalidFormat(m) => "Invalid output format: "@ + m,
            ErrorView::FileNotFound(m) => "File not found: "@ + m,
            ErrorView::PermissionDenied(m) => "Permission denied: "@ + m,
            ErrorView::InternalError(m) => "Internal error: "@ + m,
            ErrorView::Unknown(m) => "Unknown error: "@ + m,
        }
    }
}

/// A label followed by a detail.
fn labelled(label: &str, detail: &String) -> (s: String)
    ensures
        s@ == label@ + detail@,
{
    let mut s = String::from_str(label);
    s.append(detail.as_str());
    s
}

impl ReverDNSError {
    /// Whether a later attempt may succeed where this error occurred.
    pub fn is_retryable(&self) -> (b: bool)
        ensures
            b == self@.is_retryable(),
    {
        match self {
            ReverDNSError::Timeout => true,
            ReverDNSError::NetworkError(_) => true,
            ReverDNSError::RateLimitExceeded => true,
            _ => false,
        }
    }

    /// The exit code of a process that stops on this error.
    pub fn exit_code(&self) -> (code: i32)
        ensures
            code == self@.exit_code(),
    {
        match self {
            ReverDNSError::InvalidIpAddress(_) => 1,
            ReverDNSError::ConfigError(_) => 2,
            ReverDNSError::FileNotFound(_) => 3,
            ReverDNSError::PermissionDenied(_) => 4,
            ReverDNSError::Timeout => 5,
            ReverDNSError::NetworkError(_) => 6,
            ReverDNSError::RetryLimitExceeded => 7,
            _ => 1,
        }
    }

    /// The line that describes this error to a user.
    pub fn to_string(&self) -> (s: String)
        ensures
            s@ == self@.message(),
    {
        match self {
            ReverDNSError::ResolutionFailed(m) => labelled("DNS resolution failed: ", m),
            ReverDNSError::InvalidIpAddress(m) => labelled("Invalid IP address: ", m),
            ReverDNSError::Timeout => String::from_str("Timeout during DNS lookup"),
            ReverDNSError::NetworkError(m) => labelled("Network error: ", m),
            ReverDNSError::IoError(m) => labelled("IO error: ", m),
            ReverDNSError::ConfigError(m) => labelled("Configuration error: ", m),
            ReverDNSError::SerializationError(m) => labelled("Serialization error: ", m),
            ReverDNSError::CsvError(m) => labelled("CSV error: ", m),
            ReverDNSError::InvalidResolver(m) => labelled("Invalid resolver: ", m),
            ReverDNSError::RateLimitExceeded => String::from_str("Rate limit exceeded"),
            ReverDNSError::RetryLimitExceeded => String::from_str("Retry limit exceeded"),
            ReverDNSError::DoHError(m) => labelled("DNS-over-HTTPS error: ", m),
            ReverDNSError::InvalidFormat(m) => labelled("Invalid output format: ", m),
            ReverDNSError::FileNotFound(m) => labelled("File not found: ", m),
            ReverDNSError::PermissionDenied(m) => labelled("Permission denied: ", m),
            ReverDNSError::InternalError(m) => labelled("Internal error: ", m),
            ReverDNSError::Unknown(m) => labelled("Unknown error: ", m),
        }
    }
}

} // verus!
