//! Timeout policy: how long each kind of wait may last.

use std::time::Duration;

use vstd::prelude::*;

use crate::text::{parse_unsigned, unsigned_value};

verus! {

pub const DEFAULT_INIT_TIMEOUT_SECS: u64 = 30;

pub const CACHE_LIST_QUERY_TIMEOUT_SECS: u64 = 5;

pub const CACHE_REFRESH_TIMEOUT_SECS: u64 = 5;

pub const CACHE_PAGINATION_MAX_PAGES: usize = 100;

pub const NORMAL_IDLE_REAPER_SECS: u64 = 60;

pub const BROKER_IDLE_SECS: u64 = 60;

/// The name of the variable that sets the request timeout.
pub const MCP_TIMEOUT_ENV: &'static str = "MCP_TIMEOUT";

/// The length of a `Duration`, in nanoseconds.
pub uninterp spec fn nanos(d: Duration) -> nat;

/// `Duration::from_secs`: that many whole seconds.
#[verifier::external_body]
pub(crate) fn duration_from_secs(secs: u64) -> (d: Duration)
    ensures
        nanos(d) == secs as nat * 1_000_000_000,
{
    Duration::from_secs(secs)
}

/// `Duration::from_millis`: that many milliseconds.
#[verifier::external_body]
pub(crate) fn duration_from_millis(millis: u64) -> (d: Duration)
    ensures
        nanos(d) == millis as nat * 1_000_000,
{
    Duration::from_millis(millis)
}

/// `Duration::from_nanos`: that many nanoseconds.
#[verifier::external_body]
pub(crate) fn duration_from_nanos(n: u64) -> (d: Duration)
    ensures
        nanos(d) == n as nat,
{
    Duration::from_nanos(n)
}

/// Where the request timeout comes from.
#[derive(Debug, Clone, Copy, PartialEq, Eq, Structural)]
pub enum TimeoutSource {
    UpstreamEnv,
    CurrentDefault,
}

/// The timeout of a request that is passed through to the backend.
#[derive(Debug, Clone, Copy, PartialEq, Eq)]
pub struct PassThroughRequestTimeout {
    duration: Option<Duration>,
    source: TimeoutSource,
}

impl PassThroughRequestTimeout {
    /// The timeout in nanoseconds, if there is one.
    pub closed spec fn limit(&self) -> Option<nat> {
        match self.duration {
            Some(d) => Some(nanos(d)),
            None => None,
        }
    }

    pub closed spec fn origin(&self) -> TimeoutSource {
        self.source
    }

    /// Reads the value of the timeout variable: a positive number of
    /// milliseconds. Without a value there is no timeout.
    pub fn from_mcp_timeout_value(raw: Option<&str>) -> (r: Result<Self, String>)
        ensures
            match (raw, r) {
                (None, Ok(t)) => t.limit() is None && t.origin() == TimeoutSource::CurrentDefault,
                (None, Err(_)) => false,
                (Some(raw), Ok(t)) => {
                    &&& unsigned_value(raw@, u64::MAX as nat) matches Some(millis)
                    &&& millis > 0
                    &&& t.limit() == Some((millis * 1_000_000) as nat)
                    &&& t.origin() == TimeoutSource::UpstreamEnv
                },
                (Some(raw), Err(message)) => match unsigned_value(raw@, u64::MAX as nat) {
                    None => message@
                        == "MCP_TIMEOUT must be a positive integer in milliseconds"@,
                    Some(millis) => millis == 0 && message@
                        == "MCP_TIMEOUT must be greater than 0"@,
                },
            },
    {
        let raw = match raw {
            Some(raw) => raw,
            None => {
                return Ok(
                    PassThroughRequestTimeout {
                        duration: None,
                        source: TimeoutSource::CurrentDefault,
                    },
                );
            },
        };
        match parse_unsigned(raw, u64::MAX) {
            None => Err("MCP_TIMEOUT must be a positive integer in milliseconds".to_owned()),
            Some(millis) => if millis == 0 {
                Err("MCP_TIMEOUT must be greater than 0".to_owned())
            } else {
                Ok(
                    PassThroughRequestTimeout {
                        duration: Some(duration_from_millis(millis)),
                        source: TimeoutSource::UpstreamEnv,
                    },
                )
            },
        }
    }

    /// The timeout, if there is one.
    pub fn duration(self) -> (d: Option<Duration>)
        ensures
            match d {
                Some(d) => self.limit() == Some(nanos(d)),
                None => self.limit() is None,
            },
    {
        self.duration
    }

    /// Where the timeout comes from.
    pub fn source(self) -> (s: TimeoutSource)
        ensures
            s == self.origin(),
    {
        self.source
    }
}

/// How long a backend may take for the handshake unless told otherwise.
pub fn default_init_timeout() -> (d: Duration)
    ensures
        nanos(d) == 30 * 1_000_000_000,
{
    duration_from_secs(DEFAULT_INIT_TIMEOUT_SECS)
}

/// Without a value there is no timeout; a positive number of milliseconds, in decimal, is
/// that timeout; zero, and what is no such number, is refused.
pub proof fn law_timeout_is_read(raw: Option<&str>, n: nat, r: Result<PassThroughRequestTimeout, String>)
    requires
        call_ensures(PassThroughRequestTimeout::from_mcp_timeout_value, (raw,), r),
    ensures
        raw is None ==> r is Ok && r->Ok_0.limit() is None && r->Ok_0.origin()
            == TimeoutSource::CurrentDefault,
        (raw matches Some(text) ==> 0 < n <= u64::MAX && text@ == crate::text::decimal(n) ==> r is Ok
            && r->Ok_0.limit() == Some(n * 1_000_000) && r->Ok_0.origin()
            == TimeoutSource::UpstreamEnv),
        (raw matches Some(text) ==> text@ == crate::text::decimal(0) ==> r is Err),
        (raw matches Some(text) ==> unsigned_value(text@, u64::MAX as nat) is None ==> r is Err),
{
    crate::text::law_decimal_reads_back(0, u64::MAX as nat);
    if n <= u64::MAX {
        crate::text::law_decimal_reads_back(n, u64::MAX as nat);
    }
}

/// A timeout tells its length and where it comes from.
pub proof fn law_timeout_tells_its_length(
    t: PassThroughRequestTimeout,
    d: Option<Duration>,
    s: TimeoutSource,
    default: Duration,
)
    requires
        call_ensures(PassThroughRequestTimeout::duration, (t,), d),
        call_ensures(PassThroughRequestTimeout::source, (t,), s),
        call_ensures(default_init_timeout, (), default),
    ensures
        d is Some <==> t.limit() is Some,
        (d matches Some(d) ==> t.limit() == Some(nanos(d))),
        s == t.origin(),
        nanos(default) == 30_000_000_000,
{
}

} // verus!
