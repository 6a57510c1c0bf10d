use portfolio_telemetry::config::{health_status, is_dev_mode, setting_or, DEFAULT_DATABASE};

#[test]
fn settings_default_when_unset() {
    assert_eq!(setting_or(None, DEFAULT_DATABASE), "wizards_portfolio");
    assert_eq!(setting_or(Some("blog".to_string()), DEFAULT_DATABASE), "blog");
}

#[test]
fn development_mode() {
    assert!(is_dev_mode(None));
    assert!(is_dev_mode(Some("development".to_string())));
    assert!(!is_dev_mode(Some("production".to_string())));
}

#[test]
fn health_states() {
    assert_eq!(health_status(true), ("healthy", "connected"));
    assert_eq!(health_status(false), ("unhealthy", "disconnected"));
}
