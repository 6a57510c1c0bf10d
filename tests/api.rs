use portfolio_telemetry::api::{ApiResponse, ClickLogRequest, RequestLogRequest, RequestsQuery};

#[test]
fn acknowledgements() {
    let ok = ApiResponse::for_click(true);
    assert!(ok.success);
    assert_eq!(ok.message, "Click logged successfully");
    let failed = ApiResponse::for_click(false);
    assert!(!failed.success);
    assert_eq!(failed.message, "Failed to log click");
    assert_eq!(ApiResponse::for_request(true).message, "Request logged successfully");
    assert_eq!(ApiResponse::for_request(false).message, "Failed to log request");
}

#[test]
fn beacon_becomes_click_record() {
    let body = ClickLogRequest {
        element: "signup-button".to_string(),
        page_path: "/".to_string(),
        event_type: "click".to_string(),
    };
    let log = body.into_log(7, "id".to_string(), "1.2.3.4".to_string(), "ua".to_string());
    assert_eq!(log.element, "signup-button");
    assert_eq!(log.page_path, "/");
    assert_eq!(log.event_type, "click");
    assert_eq!(log.ip_address, "1.2.3.4");
    assert_eq!(log.timestamp, 7);
}

#[test]
fn report_becomes_request_record() {
    let body = RequestLogRequest {
        path: "/blog".to_string(),
        method: "GET".to_string(),
        status_code: 200,
        response_time_ms: 85,
        location: Some("Paris, FR".to_string()),
        country: Some("FR".to_string()),
        city: None,
    };
    let log = body.into_log(9, "id".to_string(), "5.6.7.8".to_string(), "ua".to_string());
    assert_eq!(log.path, "/blog");
    assert_eq!(log.response_time_ms, 85);
    assert_eq!(log.country.as_deref(), Some("FR"));
    assert!(log.city.is_none());
}

#[test]
fn paging() {
    let q = RequestsQuery { search: None, page: None };
    assert_eq!(q.page_number(), 1);
    assert_eq!(q.skip(), 0);
    let q3 = RequestsQuery { search: Some("GET".to_string()), page: Some(3) };
    assert_eq!(q3.skip(), 100);
    assert_eq!(RequestsQuery { search: None, page: Some(0) }.skip(), 0);
    assert_eq!(RequestsQuery { search: None, page: Some(u64::MAX) }.skip(), u64::MAX);
    assert_eq!(RequestsQuery::total_pages(0), 0);
    assert_eq!(RequestsQuery::total_pages(50), 1);
    assert_eq!(RequestsQuery::total_pages(51), 2);
    assert_eq!(RequestsQuery::total_pages(u64::MAX), u64::MAX / 50 + 1);
}
