use portfolio_telemetry::records::{normalize_time, parse_day, ClickLog, RequestLog, StoredTime};
use portfolio_telemetry::store::{
    click_stats, daily_click_totals, daily_totals, delete_by_date, delete_by_day,
    distinct_client_addresses, positions_on_day, requests_by_client, requests_for_day,
    search_requests, stats_for_date, stats_for_day,
};

const DAY_MS: i64 = 86_400_000;
/// 2024-01-15T00:00:00Z
const JAN_15: i64 = 1_705_276_800_000;

fn request(ts: i64, ip: &str, ms: u64) -> RequestLog {
    RequestLog {
        timestamp: ts,
        request_id: format!("req-{ts}-{ip}"),
        ip_address: ip.to_string(),
        user_agent: "test".to_string(),
        method: "GET".to_string(),
        path: "/".to_string(),
        status_code: 200,
        response_time_ms: ms,
        location: None,
        country: None,
        city: None,
    }
}

fn click(ts: i64, ip: &str, element: &str) -> ClickLog {
    ClickLog {
        timestamp: ts,
        request_id: format!("click-{ts}"),
        ip_address: ip.to_string(),
        user_agent: "test".to_string(),
        event_type: "click".to_string(),
        element: element.to_string(),
        page_path: "/".to_string(),
    }
}

#[test]
fn stats_for_three_requests_from_two_clients() {
    let records = vec![
        request(JAN_15 + 1_000, "1.1.1.1", 100),
        request(JAN_15 + 3_600_000, "2.2.2.2", 200),
        request(JAN_15 + DAY_MS - 1, "1.1.1.1", 300),
    ];
    let st = stats_for_date(&records, "2024-01-15").expect("a date");
    assert_eq!(st.total_requests, 3);
    assert_eq!(st.avg_response_time_ms, 200);
    assert_eq!(st.total_response_time_ms, 600);
    assert_eq!(st.distinct_client_count, 2);
}

#[test]
fn stats_for_date_excludes_neighbouring_days() {
    let records = vec![
        request(JAN_15 - 1, "9.9.9.9", 1_000),
        request(JAN_15, "1.1.1.1", 10),
        request(JAN_15 + DAY_MS, "8.8.8.8", 5_000),
    ];
    let st = stats_for_date(&records, "2024-01-15").unwrap();
    assert_eq!(st.total_requests, 1);
    assert_eq!(st.avg_response_time_ms, 10);
    assert_eq!(st.distinct_client_count, 1);
    let next = stats_for_date(&records, "2024-01-16").unwrap();
    assert_eq!(next.total_requests, 1);
    assert_eq!(next.avg_response_time_ms, 5_000);
}

#[test]
fn stats_for_an_empty_day_and_a_bad_date() {
    let records = vec![request(JAN_15, "1.1.1.1", 10)];
    let st = stats_for_date(&records, "2023-12-31").unwrap();
    assert_eq!(st.total_requests, 0);
    assert_eq!(st.avg_response_time_ms, 0);
    assert_eq!(st.distinct_client_count, 0);
    assert!(stats_for_date(&records, "2024-02-30").is_none());
    assert!(stats_for_date(&records, "yesterday").is_none());
}

#[test]
fn days_are_counted_from_the_epoch() {
    assert_eq!(parse_day("1970-01-01"), Some(0));
    assert_eq!(parse_day("2024-01-15"), Some(19_737));
    assert_eq!(parse_day("1969-12-31"), Some(-1));
    assert_eq!(parse_day("not a date"), None);
    let before_epoch = vec![request(-1, "1.1.1.1", 7)];
    assert_eq!(stats_for_day(&before_epoch, -1).total_requests, 1);
    assert_eq!(stats_for_day(&before_epoch, 0).total_requests, 0);
}

#[test]
fn stored_timestamps_normalize() {
    assert_eq!(normalize_time(&StoredTime::Millis(JAN_15)), Some(JAN_15));
    assert_eq!(
        normalize_time(&StoredTime::Text("2024-01-15T10:00:00Z".to_string())),
        Some(JAN_15 + 36_000_000)
    );
    assert_eq!(
        normalize_time(&StoredTime::Text("2024-01-15T10:00:00.250+02:00".to_string())),
        Some(JAN_15 + 28_800_250)
    );
    assert_eq!(normalize_time(&StoredTime::Text("garbage".to_string())), None);
}

#[test]
fn click_stats_sorted_by_count() {
    let clicks = vec![
        click(JAN_15, "1.1.1.1", "signup-button"),
        click(JAN_15 + 1, "2.2.2.2", "nav-link"),
        click(JAN_15 + 2, "2.2.2.2", "signup-button"),
    ];
    let stats = click_stats(&clicks, None);
    assert_eq!(stats.len(), 2);
    assert_eq!(stats[0].element, "signup-button");
    assert_eq!(stats[0].click_count, 2);
    assert_eq!(stats[0].distinct_client_count, 2);
    assert_eq!(stats[1].element, "nav-link");
    assert_eq!(stats[1].click_count, 1);
    assert_eq!(stats[1].distinct_client_count, 1);
}

#[test]
fn click_stats_ties_keep_first_seen_order() {
    let clicks = vec![
        click(1, "a", "footer"),
        click(2, "a", "header"),
        click(3, "b", "menu"),
        click(4, "b", "menu"),
        click(5, "a", "header"),
        click(6, "c", "footer"),
        click(7, "c", "logo"),
    ];
    let stats = click_stats(&clicks, None);
    let order: Vec<(&str, usize)> =
        stats.iter().map(|s| (s.element.as_str(), s.click_count)).collect();
    assert_eq!(order, vec![("footer", 2), ("header", 2), ("menu", 2), ("logo", 1)]);
    assert_eq!(stats[0].distinct_client_count, 2);
    assert_eq!(stats[1].distinct_client_count, 1);
}

#[test]
fn click_stats_for_one_client() {
    let clicks = vec![
        click(1, "a", "footer"),
        click(2, "b", "header"),
        click(3, "b", "header"),
        click(4, "a", "logo"),
        click(5, "a", "logo"),
    ];
    let stats = click_stats(&clicks, Some("a"));
    let order: Vec<(&str, usize)> =
        stats.iter().map(|s| (s.element.as_str(), s.click_count)).collect();
    assert_eq!(order, vec![("logo", 2), ("footer", 1)]);
    assert!(click_stats(&clicks, Some("z")).is_empty());
    assert!(click_stats(&Vec::new(), None).is_empty());
}

#[test]
fn delete_by_date_twice_returns_count_then_zero() {
    let mut records = vec![
        request(JAN_15 + 5, "1.1.1.1", 1),
        request(JAN_15 + DAY_MS, "2.2.2.2", 2),
        request(JAN_15 + 10, "3.3.3.3", 3),
    ];
    assert_eq!(delete_by_date(&mut records, "2024-01-15"), Some(2));
    assert_eq!(records.len(), 1);
    assert_eq!(records[0].ip_address, "2.2.2.2");
    assert_eq!(delete_by_date(&mut records, "2024-01-15"), Some(0));
    assert_eq!(records.len(), 1);
    assert_eq!(delete_by_date(&mut records, "15/01/2024"), None);
    assert_eq!(records.len(), 1);
    assert_eq!(delete_by_day(&mut records, 19_738), 1);
    assert!(records.is_empty());
}

#[test]
fn daily_totals_ascend_by_day() {
    let records = vec![
        request(JAN_15 + DAY_MS, "1.1.1.1", 30),
        request(JAN_15, "1.1.1.1", 10),
        request(JAN_15 + DAY_MS + 7, "2.2.2.2", 50),
        request(JAN_15 - DAY_MS, "3.3.3.3", 5),
    ];
    let totals = daily_totals(&records);
    let days: Vec<i64> = totals.iter().map(|t| t.day).collect();
    assert_eq!(days, vec![19_736, 19_737, 19_738]);
    assert_eq!(totals[2].stats.total_requests, 2);
    assert_eq!(totals[2].stats.avg_response_time_ms, 40);
    assert_eq!(totals[2].stats.distinct_client_count, 2);
    assert_eq!(totals[0].stats.total_requests, 1);
    assert!(daily_totals(&Vec::new()).is_empty());
}

#[test]
fn daily_click_totals_ascend_by_day() {
    let clicks = vec![
        click(JAN_15 + DAY_MS, "a", "x"),
        click(JAN_15, "a", "x"),
        click(JAN_15 + 1, "b", "y"),
    ];
    let totals = daily_click_totals(&clicks);
    assert_eq!(totals.len(), 2);
    assert_eq!((totals[0].day, totals[0].total_clicks), (19_737, 2));
    assert_eq!((totals[1].day, totals[1].total_clicks), (19_738, 1));
}

#[test]
fn requests_of_one_client() {
    let records = vec![
        request(1, "1.1.1.1", 1),
        request(2, "2.2.2.2", 2),
        request(3, "1.1.1.1", 3),
    ];
    let mine = requests_by_client(&records, "1.1.1.1");
    let times: Vec<u64> = mine.iter().map(|r| r.response_time_ms).collect();
    assert_eq!(times, vec![1, 3]);
    assert!(requests_by_client(&records, "4.4.4.4").is_empty());
}

#[test]
fn distinct_addresses_once_each() {
    let records = vec![
        request(1, "1.1.1.1", 1),
        request(2, "2.2.2.2", 2),
        request(3, "1.1.1.1", 3),
    ];
    assert_eq!(distinct_client_addresses(&records), vec!["1.1.1.1".to_string(), "2.2.2.2".to_string()]);
}

#[test]
fn requests_and_positions_of_one_day() {
    let records = vec![
        request(JAN_15 + 1, "a", 1),
        request(JAN_15 + DAY_MS, "b", 2),
        request(JAN_15 + 2, "c", 3),
        request(JAN_15 - 1, "d", 4),
    ];
    let day: Vec<u64> = requests_for_day(&records, 19_737).iter().map(|r| r.response_time_ms).collect();
    assert_eq!(day, vec![1, 3]);
    assert_eq!(positions_on_day(&records, 19_737), vec![0, 2]);
    assert_eq!(positions_on_day(&records, 19_736), vec![3]);
    assert!(positions_on_day(&records, 0).is_empty());
}

#[test]
fn search_matches_path_method_or_address() {
    let mut records = vec![request(1, "10.0.0.1", 1), request(2, "192.168.0.9", 2), request(3, "10.0.0.2", 3)];
    records[1].path = "/blog/rust".to_string();
    records[2].method = "POST".to_string();
    let hits = |n: &str| -> Vec<u64> { search_requests(&records, n).iter().map(|r| r.response_time_ms).collect() };
    assert_eq!(hits("rust"), vec![2]);
    assert_eq!(hits("POS"), vec![3]);
    assert_eq!(hits("10.0.0"), vec![1, 3]);
    assert_eq!(hits(""), vec![1, 2, 3]);
    assert!(hits("nothing").is_empty());
}
