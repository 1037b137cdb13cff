//! The errors that the host reports to a module for a refused or failed host call.

use vstd::prelude::*;
use vstd::string::StringExecFns;

verus! {

/// Why the host refused or could not complete a call that a module made. Each is reported
/// to the module as "unavailable" with the message of `host_error_message`.
#[derive(Clone, Copy, PartialEq, Eq, Structural, Debug)]
pub enum HostError {
    /// A cache key is empty, too long, or holds a byte outside `[A-Za-z0-9._-]`.
    InvalidCacheKey,
    /// A cached value on disk is larger than a module may read.
    CachedValueTooLarge,
    /// Reading a cached value failed.
    CacheReadFailed,
    /// A cache write has an invalid key or a value over the limit.
    InvalidCacheWrite,
    /// The cache directory could not be created.
    CacheDirectoryUnavailable,
    /// Writing or renaming a cache file failed.
    CacheWriteFailed,
    /// An HTTP request has too large a body or too many headers.
    HttpRequestTooLarge,
    /// An HTTP request URL is not an absolute HTTPS URL.
    NotHttps,
    /// An HTTP request goes to an origin that the launcher did not grant.
    OriginNotGranted,
    /// An HTTP request uses a method other than GET or POST.
    MethodNotGranted,
    /// An HTTP request sets a header that the host reserves.
    ForbiddenHeader,
    /// The HTTP client refused to build the request.
    InvalidHttpRequest,
    /// The HTTP request failed.
    HttpRequestFailed,
    /// The HTTP response body is over the limit or could not be read.
    HttpResponseTooLarge,
}

/// The message that the host reports for `e`.
pub open spec fn host_error_message(e: HostError) -> Seq<char> {
    match e {
        HostError::InvalidCacheKey => "invalid cache key"@,
        HostError::CachedValueTooLarge => "cached value exceeds limit"@,
        HostError::CacheReadFailed => "cache read failed"@,
        HostError::InvalidCacheWrite => "invalid cache write"@,
        HostError::CacheDirectoryUnavailable => "cache directory unavailable"@,
        HostError::CacheWriteFailed => "cache write failed"@,
        HostError::HttpRequestTooLarge => "HTTP request exceeds limits"@,
        HostError::NotHttps => "only absolute HTTPS URLs are allowed"@,
        HostError::OriginNotGranted => "network origin was not granted"@,
        HostError::MethodNotGranted => "HTTP method was not granted"@,
        HostError::ForbiddenHeader => "forbidden HTTP header"@,
        HostError::InvalidHttpRequest => "invalid HTTP request"@,
        HostError::HttpRequestFailed => "HTTP request failed"@,
        HostError::HttpResponseTooLarge => "HTTP response exceeds limits"@,
    }
}

impl HostError {
    /// The message that the host reports for this error.
    pub fn message(&self) -> (r: String)
        ensures
            r@ == host_error_message(*self),
    {
        match self {
            HostError::InvalidCacheKey => String::from_str("invalid cache key"),
            HostError::CachedValueTooLarge => String::from_str("cached value exceeds limit"),
            HostError::CacheReadFailed => String::from_str("cache read failed"),
            HostError::InvalidCacheWrite => String::from_str("invalid cache write"),
            HostError::CacheDirectoryUnavailable => String::from_str("cache directory unavailable"),
            HostError::CacheWriteFailed => String::from_str("cache write failed"),
            HostError::HttpRequestTooLarge => String::from_str("HTTP request exceeds limits"),
            HostError::NotHttps => String::from_str("only absolute HTTPS URLs are allowed"),
            HostError::OriginNotGranted => String::from_str("network origin was not granted"),
            HostError::MethodNotGranted => String::from_str("HTTP method was not granted"),
            HostError::ForbiddenHeader => String::from_str("forbidden HTTP header"),
            HostError::InvalidHttpRequest => String::from_str("invalid HTTP request"),
            HostError::HttpRequestFailed => String::from_str("HTTP request failed"),
            HostError::HttpResponseTooLarge => String::from_str("HTTP response exceeds limits"),
        }
    }
}

} // verus!
