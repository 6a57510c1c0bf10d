//! Per-request telemetry capture.
//!
//! Before the handler runs, [`RequestLoggingMiddleware::begin`] gives the
//! request its correlation id, starts its timer and notes what is known of
//! it. After the handler has produced the response,
//! [`PendingRequest::complete`] yields the record to persist, unless the path
//! is excluded. The record is then written in the background; a failed write
//! never touches the response.
use vstd::prelude::*;
use crate::records::RequestLog;
use crate::tracker::PerformanceTracker;

verus! {

/// Paths of static assets: not recorded.
pub const STATIC_PREFIX: &'static str = "/static";

/// Paths of the telemetry ingestion API: not recorded.
pub const LOG_API_PREFIX: &'static str = "/api/log";

/// Whether `p` is a prefix of `s`.
pub open spec fn starts_with(s: Seq<char>, p: Seq<char>) -> bool {
    p.len() <= s.len() && s.subrange(0, p.len() as int) == p
}

/// Whether requests to `path` are left out of the telemetry.
pub open spec fn is_excluded(path: Seq<char>) -> bool {
    starts_with(path, STATIC_PREFIX@) || starts_with(path, LOG_API_PREFIX@)
}

/// Whether `prefix` is a prefix of `s`.
pub fn has_prefix(s: &str, prefix: &str) -> (r: bool)
    ensures
        r == starts_with(s@, prefix@),
{
    let n = prefix.unicode_len();
    if n > s.unicode_len() {
        return false;
    }
    let mut i: usize = 0;
    while i < n
        invariant
            n == prefix@.len(),
            n <= s@.len(),
            i <= n,
            forall|k: int| 0 <= k < i ==> s@[k] == prefix@[k],
        decreases n - i,
    {
        if s.get_char(i) != prefix.get_char(i) {
            return false;
        }
        i = i + 1;
    }
    assert(s@.subrange(0, n as int) == prefix@);
    true
}

/// Whether a request to `path` gets a telemetry record.
pub fn should_log(path: &str) -> (r: bool)
    ensures
        r == !is_excluded(path@),
{
    !has_prefix(path, STATIC_PREFIX) && !has_prefix(path, LOG_API_PREFIX)
}

/// The value reported for a missing client address or user agent.
pub const UNKNOWN: &'static str = "unknown";

/// Relies on `uuid::Uuid::new_v4` and its `Display`, which writes the
/// hyphenated form of 36 characters.
#[verifier::external_body]
fn random_uuid_text() -> (r: String)
    ensures
        r@.len() == 36,
{
    uuid::Uuid::new_v4().to_string()
}

/// Extraction of request metadata.
pub struct RequestLogger;

impl RequestLogger {
    /// A fresh random correlation id.
    pub fn create_request_id() -> (r: String)
        ensures
            r@.len() == 36,
    {
        random_uuid_text()
    }

    /// The client address, or `"unknown"` where the connection has none.
    pub fn extract_ip(peer_addr: Option<&str>) -> (r: String)
        ensures
            r@ == (match peer_addr {
                Some(a) => a@,
                None => UNKNOWN@,
            }),
    {
        match peer_addr {
            Some(a) => a.to_owned(),
            None => UNKNOWN.to_owned(),
        }
    }

    /// The `User-Agent` header, or `"unknown"` where it is missing or not
    /// readable text.
    pub fn extract_user_agent(header: Option<&str>) -> (r: String)
        ensures
            r@ == (match header {
                Some(h) => h@,
                None => UNKNOWN@,
            }),
    {
        match header {
            Some(h) => h.to_owned(),
            None => UNKNOWN.to_owned(),
        }
    }
}

/// Builds the per-request middleware around the next stage.
pub struct RequestLogging;

/// The middleware around the next stage of request handling.
pub struct RequestLoggingMiddleware<S> {
    pub service: S,
}

impl RequestLogging {
    pub fn new_transform<S>(&self, service: S) -> (r: RequestLoggingMiddleware<S>)
        ensures
            r.service == service,
    {
        RequestLoggingMiddleware { service }
    }
}

/// What is known of a request while its handler runs.
pub struct PendingRequest {
    pub request_id: String,
    pub ip_address: String,
    pub user_agent: String,
    pub method: String,
    pub path: String,
    pub should_log: bool,
    pub tracker: PerformanceTracker,
}

impl<S> RequestLoggingMiddleware<S> {
    /// Starts the telemetry of one request, before its handler runs.
    pub fn begin(
        &self,
        peer_addr: Option<&str>,
        user_agent: Option<&str>,
        method: &str,
        path: &str,
    ) -> (p: PendingRequest)
        ensures
            p.request_id@.len() == 36,
            p.ip_address@ == (match peer_addr {
                Some(a) => a@,
                None => UNKNOWN@,
            }),
            p.user_agent@ == (match user_agent {
                Some(h) => h@,
                None => UNKNOWN@,
            }),
            p.method@ == method@,
            p.path@ == path@,
            p.should_log == !is_excluded(path@),
    {
        let tracker = PerformanceTracker::new();
        PendingRequest {
            request_id: RequestLogger::create_request_id(),
            ip_address: RequestLogger::extract_ip(peer_addr),
            user_agent: RequestLogger::extract_user_agent(user_agent),
            method: method.to_owned(),
            path: path.to_owned(),
            should_log: should_log(path),
            tracker,
        }
    }
}

impl PendingRequest {
    /// Whether `log` is the record of this request with the given outcome.
    pub open spec fn recorded_as(
        &self,
        log: RequestLog,
        status_code: u16,
        elapsed_ms: u64,
        timestamp: i64,
    ) -> bool {
        &&& log.timestamp == timestamp
        &&& log.request_id == self.request_id
        &&& log.ip_address == self.ip_address
        &&& log.user_agent == self.user_agent
        &&& log.method == self.method
        &&& log.path == self.path
        &&& log.status_code == status_code
        &&& log.response_time_ms == elapsed_ms
        &&& log.location is None
        &&& log.country is None
        &&& log.city is None
    }

    /// The record of this request once its response is final: `None` for an
    /// excluded path, else exactly one record with the response's status and
    /// the measured time.
    pub fn into_record(self, status_code: u16, elapsed_ms: u64, timestamp: i64) -> (r: Option<
        RequestLog,
    >)
        ensures
            r is Some <==> self.should_log,
            r matches Some(log) ==> self.recorded_as(log, status_code, elapsed_ms, timestamp),
    {
        if !self.should_log {
            return None;
        }
        Some(
            RequestLog {
                timestamp,
                request_id: self.request_id,
                ip_address: self.ip_address,
                user_agent: self.user_agent,
                method: self.method,
                path: self.path,
                status_code,
                response_time_ms: elapsed_ms,
                location: None,
                country: None,
                city: None,
            },
        )
    }

    /// Stops the timer and returns the record to persist, if any: one record
    /// for a path that is not excluded, none for one that is. `timestamp` is
    /// the completion time in milliseconds since the Unix epoch.
    pub fn complete(self, status_code: u16, timestamp: i64) -> (r: Option<RequestLog>)
        ensures
            r is Some <==> self.should_log,
            r matches Some(log) ==> self.recorded_as(
                log,
                status_code,
                log.response_time_ms,
                timestamp,
            ),
    {
        let elapsed = self.tracker.elapsed_ms();
        self.into_record(status_code, elapsed, timestamp)
    }
}

} // verus!
