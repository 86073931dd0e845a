use emicon::hibp::{
    all_breaches_url, assert_auth, breach_url, breached_account_url, check_user_agent,
    classify_status, count_in_range, password_hash_parts, password_range_url, paste_account_url, HibpError,
    StatusOutcome,
};

#[test]
fn statuses_map_to_errors() {
    assert!(matches!(classify_status(200), StatusOutcome::Success));
    assert!(matches!(classify_status(404), StatusOutcome::Failure(HibpError::NotFound)));
    assert!(matches!(classify_status(403), StatusOutcome::Failure(HibpError::Forbidden)));
    assert!(matches!(classify_status(400), StatusOutcome::Failure(HibpError::BadRequest)));
    assert!(matches!(classify_status(401), StatusOutcome::Failure(HibpError::Unauthorized)));
    assert!(matches!(classify_status(429), StatusOutcome::Failure(HibpError::RateLimit)));
    assert!(matches!(
        classify_status(503),
        StatusOutcome::Failure(HibpError::ServiceUnavailable)
    ));
    assert!(matches!(classify_status(500), StatusOutcome::Unexpected));
    assert!(matches!(classify_status(201), StatusOutcome::Unexpected));
}

#[test]
fn key_is_required() {
    assert!(assert_auth(&Some("k".to_string())).is_ok());
    assert!(matches!(assert_auth(&None), Err(HibpError::Unauthorized)));
}

#[test]
fn blank_user_agent_is_refused() {
    assert!(check_user_agent("my-app/1.0").is_ok());
    assert!(matches!(check_user_agent(""), Err(HibpError::ClientBuildError(_))));
    assert!(matches!(check_user_agent(" \t\n"), Err(HibpError::ClientBuildError(_))));
}

#[test]
fn password_hash_is_split_for_range_query() {
    let (prefix, suffix) = password_hash_parts(b"password");
    assert_eq!(prefix, "5BAA6");
    assert_eq!(suffix, "1E4C9B93F3F0682250B6CF8331B7EE68FD8");
    assert_eq!(password_range_url(&prefix), "https://api.pwnedpasswords.com/range/5BAA6");
}

#[test]
fn urls_encode_their_argument() {
    assert_eq!(
        breached_account_url("a b@x.com", true),
        "https://haveibeenpwned.com/api/v3/breachedaccount/a%20b%40x.com?truncateResponse=true"
    );
    assert_eq!(
        breached_account_url("user@example.com", false),
        "https://haveibeenpwned.com/api/v3/breachedaccount/user%40example.com?truncateResponse=false"
    );
    assert_eq!(
        paste_account_url("a.b-c_d~e"),
        "https://haveibeenpwned.com/api/v3/pasteaccount/a.b-c_d~e"
    );
    assert_eq!(all_breaches_url(None), "https://haveibeenpwned.com/api/v3/breaches");
    assert_eq!(
        all_breaches_url(Some("adobe.com")),
        "https://haveibeenpwned.com/api/v3/breaches?domain=adobe.com"
    );
    assert_eq!(breach_url("Adobe/é"), "https://haveibeenpwned.com/api/v3/breach/Adobe%2F%C3%A9");
}

#[test]
fn range_body_count_lookup() {
    let body = "0018A45C4D1DEF81644B54AB7F969B88D65:1\r\n1E4C9B93F3F0682250B6CF8331B7EE68FD8:10434004\r\n011053FD0102E94D6AE2F8B83D76FAF94F6:0\r\n";
    assert_eq!(count_in_range(body, "1E4C9B93F3F0682250B6CF8331B7EE68FD8"), 10434004);
    assert_eq!(count_in_range(body, "1e4c9b93f3f0682250b6cf8331b7ee68fd8"), 10434004);
    assert_eq!(count_in_range(body, "0018A45C4D1DEF81644B54AB7F969B88D65"), 1);
    assert_eq!(count_in_range(body, "FFFFFFFFFFFFFFFFFFFFFFFFFFFFFFFFFFF"), 0);
    assert_eq!(count_in_range("", "ABC"), 0);
}

#[test]
fn range_body_edge_lines() {
    // a count that does not read as a number is passed over
    assert_eq!(count_in_range("ABC:x\nABC: 7 \n", "ABC"), 7);
    // the last line needs no newline
    assert_eq!(count_in_range("X:1\nABC:3", "abc"), 3);
    // the suffix is what stands before the first colon
    assert_eq!(count_in_range("ABC:1:2\nAB:C:5", "AB"), 0);
    assert_eq!(count_in_range("AB:C\n", "AB"), 0);
    assert_eq!(count_in_range("ABC:1:2\n", "ABC"), 0);
    assert_eq!(count_in_range("ABCD:4\nABC:5", "ABC"), 5);
}
