//! Process configuration data: logging choices and the administrative
//! account, with the validation the process applies at startup.

use vstd::prelude::*;

use crate::text::spec_trim;
use vstd::utf8::encode_utf8;

verus! {

/// How log output decides whether to use color.
#[derive(Debug, Clone, Copy, PartialEq, Eq, Structural)]
pub enum LogStyle {
    /// Color exactly when standard output is a terminal.
    Auto,
    Always,
    Never,
}

impl Default for LogStyle {
    /// The default style decides by terminal detection.
    fn default() -> (r: LogStyle)
        ensures
            r == LogStyle::Auto,
    {
        LogStyle::Auto
    }
}

impl LogStyle {
    /// Whether to color, given whether standard output is a terminal
    /// (detected by the process around the library).
    pub fn is_color(&self, stdout_is_terminal: bool) -> (r: bool)
        ensures
            r == match self {
                LogStyle::Auto => stdout_is_terminal,
                LogStyle::Always => true,
                LogStyle::Never => false,
            },
    {
        match self {
            LogStyle::Auto => stdout_is_terminal,
            LogStyle::Always => true,
            LogStyle::Never => false,
        }
    }
}

/// Logging configuration: a filter directive and a color style.
#[derive(Debug, Clone)]
pub struct Log {
    pub level: String,
    pub style: LogStyle,
}

impl Log {
    /// The default filter directive.
    pub fn level() -> (r: String)
        ensures
            r@ == "dyndns=info"@,
    {
        "dyndns=info".to_owned()
    }
}

impl Default for Log {
    /// The default logging configuration.
    fn default() -> (r: Log)
        ensures
            r.level@ == "dyndns=info"@,
            r.style == LogStyle::Auto,
    {
        Log { level: Log::level(), style: LogStyle::Auto }
    }
}

/// The administrative account's configuration.
#[derive(Debug, Clone)]
pub struct Auth {
    pub username: String,
    pub password: String,
    pub token_ttl_seconds: u64,
    pub refresh_token_ttl_seconds: u64,
}

impl Default for Auth {
    /// The default account: no credentials yet, one-hour access tokens,
    /// one-day refresh tokens.
    fn default() -> (r: Auth)
        ensures
            r.username@.len() == 0,
            r.password@.len() == 0,
            r.token_ttl_seconds == 3600,
            r.refresh_token_ttl_seconds == 86400,
    {
        Auth {
            username: String::new(),
            password: String::new(),
            token_ttl_seconds: 3600,
            refresh_token_ttl_seconds: 86400,
        }
    }
}

impl Auth {
    /// Whether the configuration is acceptable: a nonblank username, a
    /// password of at least eight bytes, positive token lifetimes, and a
    /// refresh lifetime strictly longer than the access lifetime.
    pub open spec fn spec_valid(self) -> bool {
        &&& spec_trim(encode_utf8(self.username@)).len() > 0
        &&& encode_utf8(self.password@).len() >= 8
        &&& self.token_ttl_seconds > 0
        &&& self.refresh_token_ttl_seconds > 0
        &&& self.refresh_token_ttl_seconds > self.token_ttl_seconds
    }

    /// Validates the configuration, reporting the first rule broken, in
    /// the order: blank username, short password, zero access lifetime,
    /// zero refresh lifetime, refresh lifetime not above access lifetime.
    pub fn validate(&self) -> (r: Result<(), String>)
        ensures
            r is Ok <==> self.spec_valid(),
            spec_trim(encode_utf8(self.username@)).len() == 0 ==> (r matches Err(m) && m@
                == "authentication username must be set"@),
            spec_trim(encode_utf8(self.username@)).len() > 0 && encode_utf8(
                self.password@,
            ).len() < 8 ==> (r matches Err(m) && m@
                == "authentication password must be at least 8 characters"@),
            spec_trim(encode_utf8(self.username@)).len() > 0 && encode_utf8(
                self.password@,
            ).len() >= 8 && self.token_ttl_seconds == 0 ==> (r matches Err(m) && m@
                == "authentication token ttl must be greater than zero"@),
            spec_trim(encode_utf8(self.username@)).len() > 0 && encode_utf8(
                self.password@,
            ).len() >= 8 && self.token_ttl_seconds > 0 && self.refresh_token_ttl_seconds == 0
                ==> (r matches Err(m) && m@
                == "authentication refresh token ttl must be greater than zero"@),
            spec_trim(encode_utf8(self.username@)).len() > 0 && encode_utf8(
                self.password@,
            ).len() >= 8 && self.token_ttl_seconds > 0 && self.refresh_token_ttl_seconds > 0
                && self.refresh_token_ttl_seconds <= self.token_ttl_seconds ==> (r matches Err(
                m,
            ) && m@ == "authentication refresh token ttl must be greater than access token ttl"@),
    {
        let username_bytes = self.username.as_str().as_bytes();
        let trimmed = crate::text::trim_bytes(username_bytes);
        if trimmed.len() == 0 {
            return Err("authentication username must be set".to_owned());
        }
        if self.password.as_str().as_bytes().len() < 8 {
            return Err("authentication password must be at least 8 characters".to_owned());
        }
        if self.token_ttl_seconds == 0 {
            return Err("authentication token ttl must be greater than zero".to_owned());
        }
        if self.refresh_token_ttl_seconds == 0 {
            return Err("authentication refresh token ttl must be greater than zero".to_owned());
        }
        if self.refresh_token_ttl_seconds <= self.token_ttl_seconds {
            return Err(
                "authentication refresh token ttl must be greater than access token ttl".to_owned(),
            );
        }
        Ok(())
    }
}

} // verus!
