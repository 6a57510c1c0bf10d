use portfolio_telemetry::errors::{
    contains_str, not_found_dev_page, server_error_dev_page, wants_json, NOT_FOUND_DEV_HEAD,
    NOT_FOUND_DEV_TAIL, SERVER_ERROR_DEV_HEAD, SERVER_ERROR_DEV_TAIL,
};

#[test]
fn json_for_api_paths_and_json_clients() {
    assert!(wants_json("/api/health", None));
    assert!(wants_json("/apiary", None));
    assert!(wants_json("/blog", Some("text/html, application/json;q=0.9")));
    assert!(!wants_json("/blog", Some("text/html")));
    assert!(!wants_json("/blog", None));
}

#[test]
fn substring_search() {
    assert!(contains_str("abcabd", "abd"));
    assert!(contains_str("abc", ""));
    assert!(!contains_str("ab", "abc"));
    assert!(!contains_str("application/jso", "application/json"));
}

#[test]
fn dev_pages_escape_their_text() {
    let page = not_found_dev_page("/x<script>&y>");
    let expected = format!("{}{}{}", NOT_FOUND_DEV_HEAD, "/x&lt;script&gt;&amp;y&gt;", NOT_FOUND_DEV_TAIL);
    assert_eq!(page, expected);
    let err = server_error_dev_page("a < b");
    assert_eq!(err, format!("{}a &lt; b{}", SERVER_ERROR_DEV_HEAD, SERVER_ERROR_DEV_TAIL));
}
