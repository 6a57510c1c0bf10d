use portfolio_telemetry::admin::{hash_password, password_matches, PasswordError};

#[test]
fn hashed_password_matches_only_itself() {
    let hash = hash_password("hunter2").expect("hashing works");
    assert_eq!(hash.len(), 60);
    assert_eq!(password_matches(Some(&hash), "hunter2"), Ok(true));
    assert_eq!(password_matches(Some(&hash), "hunter3"), Ok(false));
}

#[test]
fn unknown_user_and_bad_hash() {
    assert_eq!(password_matches(None, "anything"), Ok(false));
    assert_eq!(password_matches(Some("not-a-hash"), "x"), Err(PasswordError::MalformedHash));
}
