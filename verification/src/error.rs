//! Error taxonomy of the engine.
//!
//! Transport and interface failures are retried or reported by the process
//! around the library; address-not-found and parse failures abort a single
//! reconciliation cycle; none of them ever terminates the daemon.

use vstd::prelude::*;

verus! {

/// A sleep interval that the configuration store cannot represent.
#[derive(Debug, Clone, PartialEq, Eq)]
pub enum SleepIntervalError {
    /// The interval was zero: the scheduler needs a positive period.
    NonPositive,
    /// The interval does not fit the storage's signed 64-bit column.
    Overflow,
}

/// Failures of the dynamic-DNS configuration itself.
#[derive(Debug, Clone, PartialEq, Eq)]
pub enum DynDnsError {
    /// No configuration row exists yet.
    NotConfigured,
    /// A submitted configuration was rejected; the payload says why.
    ValidationFailed(String),
    /// The stored poll interval is unusable.
    SleepInterval(SleepIntervalError),
}

/// Failures while looking up or parsing addresses, or talking to the network.
#[derive(Debug, Clone, PartialEq, Eq)]
pub enum NetworkError {
    /// The HTTP transport failed after its retries were exhausted.
    Http(String),
    /// Enumerating the host's network interfaces failed.
    Interface(String),
    /// No qualifying IPv6 address exists on the configured interface.
    Ipv6NotFound,
    /// No qualifying IPv4 address exists on the configured interface.
    Ipv4NotFound,
    /// A lookup response body did not parse as an IPv4 address; the payload
    /// holds the raw body's bytes.
    IPv4ParseError(Vec<u8>),
    /// A lookup response body did not parse as an IPv6 address; the payload
    /// holds the raw body's bytes.
    IPv6ParseError(Vec<u8>),
}

/// Failures of the login/session subsystem.
#[derive(Debug, Clone, PartialEq, Eq)]
pub enum AuthError {
    /// The caller's credentials or token were rejected; `code` is the
    /// machine-readable reason handed to API clients.
    Unauthorized { reason: String, code: String },
    /// An access token could not be encoded.
    TokenEncodingFailed(String),
}

impl AuthError {
    /// Whether this is the rejection for a malformed or unknown refresh
    /// token: unauthorized, with its conventional reason and code.
    pub open spec fn spec_is_invalid_refresh_token(self) -> bool {
        self matches AuthError::Unauthorized { reason, code } && reason@
            == "invalid refresh token"@ && code@ == "invalid_refresh_token"@
    }

    /// The rejection for a malformed or unknown refresh token.
    pub fn invalid_refresh_token() -> (r: AuthError)
        ensures
            r.spec_is_invalid_refresh_token(),
    {
        AuthError::Unauthorized {
            reason: "invalid refresh token".to_owned(),
            code: "invalid_refresh_token".to_owned(),
        }
    }
}

} // verus!
