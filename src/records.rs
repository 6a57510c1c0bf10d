//! The telemetry record shapes and the normalization of their timestamps.
//!
//! Timestamps are held as milliseconds since the Unix epoch (UTC). Older
//! producers stored them as ISO-8601 text; [`normalize_time`] turns either
//! stored form into milliseconds, so that grouping never sees the difference.
use vstd::prelude::*;

verus! {

/// Milliseconds in one day.
pub const MILLIS_PER_DAY: i64 = 86_400_000;

/// The number of 1970-01-01 when days are counted with 0001-01-01 as day 1.
pub const UNIX_EPOCH_CE_DAY: i64 = 719_163;

/// One handled HTTP request.
pub struct RequestLog {
    /// Milliseconds since the Unix epoch, UTC.
    pub timestamp: i64,
    pub request_id: String,
    pub ip_address: String,
    pub user_agent: String,
    pub method: String,
    pub path: String,
    pub status_code: u16,
    pub response_time_ms: u64,
    pub location: Option<String>,
    pub country: Option<String>,
    pub city: Option<String>,
}

/// One click beacon sent by a client.
pub struct ClickLog {
    /// Milliseconds since the Unix epoch, UTC.
    pub timestamp: i64,
    pub request_id: String,
    pub ip_address: String,
    pub user_agent: String,
    pub event_type: String,
    pub element: String,
    pub page_path: String,
}

/// A timestamp as it may be found in storage: a native date value, or text
/// written by an older producer.
pub enum StoredTime {
    Millis(i64),
    Text(String),
}

/// The day number (days since 1970-01-01, UTC) of a millisecond timestamp.
pub open spec fn day_of(ms: int) -> int {
    ms / (MILLIS_PER_DAY as int)
}

/// What chrono's `DateTime<Utc>` parser makes of a text, in milliseconds.
pub uninterp spec fn utc_millis_of(s: Seq<char>) -> Option<i64>;

/// What chrono makes of a `%Y-%m-%d` date, counted in days from 0001-01-01
/// (day 1).
pub uninterp spec fn ce_day_of(s: Seq<char>) -> Option<i32>;

/// Relies on `<chrono::DateTime<chrono::Utc> as FromStr>::from_str` (a relaxed
/// RFC 3339 parser) and `DateTime::timestamp_millis`: the result depends on
/// the text alone.
#[verifier::external_body]
fn parse_utc_millis(s: &str) -> (r: Option<i64>)
    ensures
        r == utc_millis_of(s@),
{
    match s.parse::<chrono::DateTime<chrono::Utc>>() {
        Ok(t) => Some(t.timestamp_millis()),
        Err(_) => None,
    }
}

/// Relies on `chrono::NaiveDate::parse_from_str` with the format `%Y-%m-%d`
/// and `Datelike::num_days_from_ce`: the result depends on the text alone.
#[verifier::external_body]
fn parse_ce_day(s: &str) -> (r: Option<i32>)
    ensures
        r == ce_day_of(s@),
{
    match chrono::NaiveDate::parse_from_str(s, "%Y-%m-%d") {
        Ok(d) => Some(chrono::Datelike::num_days_from_ce(&d)),
        Err(_) => None,
    }
}

/// The millisecond value that a stored timestamp stands for, given what the
/// text parser makes of a text.
pub open spec fn stored_millis(t: StoredTime) -> Option<i64> {
    match t {
        StoredTime::Millis(ms) => Some(ms),
        StoredTime::Text(s) => utc_millis_of(s@),
    }
}

/// Normalizes a stored timestamp to milliseconds; `None` where the text does
/// not parse (such a record is skipped, not fatal to a query).
pub fn normalize_time(t: &StoredTime) -> (r: Option<i64>)
    ensures
        r == stored_millis(*t),
{
    match t {
        StoredTime::Millis(ms) => Some(*ms),
        StoredTime::Text(s) => parse_utc_millis(s.as_str()),
    }
}

/// The Unix day number that a day counted from 0001-01-01 stands for.
pub fn unix_day_from_ce_day(ce_day: i32) -> (r: i64)
    ensures
        r == ce_day - UNIX_EPOCH_CE_DAY,
{
    ce_day as i64 - UNIX_EPOCH_CE_DAY
}

/// The Unix day number of a `%Y-%m-%d` date, or `None` where it is no date.
pub fn parse_day(date: &str) -> (r: Option<i64>)
    ensures
        r == (match ce_day_of(date@) {
            Some(d) => Some((d - UNIX_EPOCH_CE_DAY) as i64),
            None => None::<i64>,
        }),
{
    match parse_ce_day(date) {
        Some(d) => Some(unix_day_from_ce_day(d)),
        None => None,
    }
}

/// The Unix day number of a millisecond timestamp (floor division, so that
/// instants before 1970 fall on negative days).
pub fn day_of_millis(ms: i64) -> (r: i64)
    ensures
        r == day_of(ms as int),
{
    // The divisor is positive and above 1, so the quotient always exists.
    let d = ms.checked_div_euclid(MILLIS_PER_DAY);
    match d {
        Some(v) => v,
        None => 0,
    }
}

fn copy_opt_text(o: &Option<String>) -> (r: Option<String>)
    ensures
        r == *o,
{
    match o {
        Some(t) => Some(t.clone()),
        None => None,
    }
}

impl RequestLog {
    /// An identical copy of the record.
    pub fn duplicate(&self) -> (r: RequestLog)
        ensures
            r == *self,
    {
        RequestLog {
            timestamp: self.timestamp,
            request_id: self.request_id.clone(),
            ip_address: self.ip_address.clone(),
            user_agent: self.user_agent.clone(),
            method: self.method.clone(),
            path: self.path.clone(),
            status_code: self.status_code,
            response_time_ms: self.response_time_ms,
            location: copy_opt_text(&self.location),
            country: copy_opt_text(&self.country),
            city: copy_opt_text(&self.city),
        }
    }
}

} // verus!
