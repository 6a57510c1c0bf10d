//! Bodies of the HTTP API: telemetry ingestion, log listing and login.
use vstd::prelude::*;
use crate::records::{ClickLog, RequestLog};

verus! {

/// A click beacon sent by a page.
pub struct ClickLogRequest {
    pub element: String,
    pub page_path: String,
    pub event_type: String,
}

/// A request event reported by a client.
pub struct RequestLogRequest {
    pub path: String,
    pub method: String,
    pub status_code: u16,
    pub response_time_ms: u64,
    pub location: Option<String>,
    pub country: Option<String>,
    pub city: Option<String>,
}

/// The acknowledgement of an ingestion call.
pub struct ApiResponse {
    pub success: bool,
    pub message: String,
}

/// Paging and search of the request list.
pub struct RequestsQuery {
    pub search: Option<String>,
    pub page: Option<u64>,
}

/// Login credentials.
pub struct LoginRequest {
    pub username: String,
    pub password: String,
}

/// The answer to a successful login.
pub struct LoginResponse {
    pub token: String,
    pub username: String,
    /// Unix timestamp, in seconds.
    pub expires_at: i64,
}

impl ClickLogRequest {
    /// The click record of this beacon, sent by the given client.
    pub fn into_log(self, timestamp: i64, request_id: String, ip_address: String, user_agent: String) -> (r:
        ClickLog)
        ensures
            r.timestamp == timestamp,
            r.request_id == request_id,
            r.ip_address == ip_address,
            r.user_agent == user_agent,
            r.event_type == self.event_type,
            r.element == self.element,
            r.page_path == self.page_path,
    {
        ClickLog {
            timestamp,
            request_id,
            ip_address,
            user_agent,
            event_type: self.event_type,
            element: self.element,
            page_path: self.page_path,
        }
    }
}

impl RequestLogRequest {
    /// The request record of this report, sent by the given client.
    pub fn into_log(self, timestamp: i64, request_id: String, ip_address: String, user_agent: String) -> (r:
        RequestLog)
        ensures
            r.timestamp == timestamp,
            r.request_id == request_id,
            r.ip_address == ip_address,
            r.user_agent == user_agent,
            r.method == self.method,
            r.path == self.path,
            r.status_code == self.status_code,
            r.response_time_ms == self.response_time_ms,
            r.location == self.location,
            r.country == self.country,
            r.city == self.city,
    {
        RequestLog {
            timestamp,
            request_id,
            ip_address,
            user_agent,
            method: self.method,
            path: self.path,
            status_code: self.status_code,
            response_time_ms: self.response_time_ms,
            location: self.location,
            country: self.country,
            city: self.city,
        }
    }
}

impl ApiResponse {
    /// The acknowledgement of a click beacon whose write did or did not succeed.
    pub fn for_click(written: bool) -> (r: ApiResponse)
        ensures
            r.success == written,
            r.message@ == (if written {
                "Click logged successfully"@
            } else {
                "Failed to log click"@
            }),
    {
        if written {
            ApiResponse { success: true, message: "Click logged successfully".to_owned() }
        } else {
            ApiResponse { success: false, message: "Failed to log click".to_owned() }
        }
    }

    /// The acknowledgement of a request report whose write did or did not
    /// succeed.
    pub fn for_request(written: bool) -> (r: ApiResponse)
        ensures
            r.success == written,
            r.message@ == (if written {
                "Request logged successfully"@
            } else {
                "Failed to log request"@
            }),
    {
        if written {
            ApiResponse { success: true, message: "Request logged successfully".to_owned() }
        } else {
            ApiResponse { success: false, message: "Failed to log request".to_owned() }
        }
    }
}

/// Requests shown per page of the request list.
pub const PER_PAGE: u64 = 50;

impl RequestsQuery {
    /// The requested page, counted from 1; the first where none is given.
    pub fn page_number(&self) -> (r: u64)
        ensures
            r == (match self.page {
                Some(p) => p,
                None => 1,
            }),
    {
        match self.page {
            Some(p) => p,
            None => 1,
        }
    }

    /// How many requests precede the requested page; page 0 counts as the
    /// first, and the count saturates at `u64::MAX`.
    pub fn skip(&self) -> (r: u64)
        ensures
            ({
                let p = match self.page {
                    Some(p) => p as int,
                    None => 1,
                };
                let before = if p == 0 { 0 } else { (p - 1) * PER_PAGE };
                r == if before > u64::MAX { u64::MAX as int } else { before }
            }),
    {
        let p = self.page_number();
        if p == 0 {
            0
        } else if p - 1 > u64::MAX / PER_PAGE {
            u64::MAX
        } else {
            (p - 1) * PER_PAGE
        }
    }

    /// The number of pages that `total_count` requests fill.
    pub fn total_pages(total_count: u64) -> (r: u64)
        ensures
            r * PER_PAGE >= total_count,
            r == 0 || (r - 1) * PER_PAGE < total_count,
    {
        let full = total_count / PER_PAGE;
        if total_count % PER_PAGE == 0 {
            full
        } else {
            full + 1
        }
    }
}

} // verus!
