use portfolio_telemetry::capture::{should_log, RequestLogger, RequestLogging};

#[test]
fn excluded_paths_are_not_logged() {
    assert!(!should_log("/static/css/site.css"));
    assert!(!should_log("/static"));
    assert!(!should_log("/api/log/click"));
    assert!(!should_log("/api/logging"));
    assert!(should_log("/api/health"));
    assert!(should_log("/about"));
    assert!(should_log("/"));
    assert!(should_log(""));
    assert!(should_log("/STATIC/x"));
}

#[test]
fn missing_metadata_reads_unknown() {
    assert_eq!(RequestLogger::extract_ip(None), "unknown");
    assert_eq!(RequestLogger::extract_ip(Some("10.0.0.7:5000")), "10.0.0.7:5000");
    assert_eq!(RequestLogger::extract_user_agent(None), "unknown");
    assert_eq!(RequestLogger::extract_user_agent(Some("curl/8.0")), "curl/8.0");
}

#[test]
fn request_ids_are_fresh_uuids() {
    let a = RequestLogger::create_request_id();
    let b = RequestLogger::create_request_id();
    assert_eq!(a.len(), 36);
    assert_eq!(b.len(), 36);
    assert_ne!(a, b);
}

#[test]
fn one_record_for_a_logged_request() {
    let mw = RequestLogging.new_transform(());
    let pending = mw.begin(Some("10.0.0.1"), Some("agent"), "GET", "/about");
    assert!(pending.should_log);
    let id = pending.request_id.clone();
    let log = pending.into_record(404, 123, 1_705_276_800_000).expect("a record");
    assert_eq!(log.request_id, id);
    assert_eq!(log.ip_address, "10.0.0.1");
    assert_eq!(log.user_agent, "agent");
    assert_eq!(log.method, "GET");
    assert_eq!(log.path, "/about");
    assert_eq!(log.status_code, 404);
    assert_eq!(log.response_time_ms, 123);
    assert_eq!(log.timestamp, 1_705_276_800_000);
    assert!(log.location.is_none() && log.country.is_none() && log.city.is_none());
}

#[test]
fn no_record_for_an_excluded_request() {
    let mw = RequestLogging.new_transform(());
    let pending = mw.begin(None, None, "GET", "/static/app.js");
    assert!(!pending.should_log);
    assert!(pending.complete(200, 0).is_none());
}

#[test]
fn complete_measures_the_handler() {
    let mw = RequestLogging.new_transform(());
    let pending = mw.begin(None, None, "POST", "/posts");
    let waited = std::time::Instant::now();
    while waited.elapsed().as_millis() < 30 {}
    let log = pending.complete(201, 42).expect("a record");
    assert!(log.response_time_ms >= 30);
    assert!(log.response_time_ms < 5000);
    assert_eq!(log.status_code, 201);
    assert_eq!(log.timestamp, 42);
    assert_eq!(log.ip_address, "unknown");
}
