use logpose::analytics::{
    classify_user_agent, client_ip_of, extract_raw_analytics, extract_raw_analytics_at, to_new_entries, to_new_entry,
    worker_should_pause, RawAnalyticsEvent,
};

#[test]
fn test_extract_raw_analytics_headers() {
    let event = extract_raw_analytics(
        "127.0.0.1",
        Some("203.0.113.195, 70.41.3.18"),
        Some("Mozilla/5.0 (Windows NT 10.0; Win64; x64)"),
        Some("https://google.com"),
        Some("US"),
        "xyz123".to_string(),
    );

    assert_eq!(event.short_code, "xyz123");
    assert_eq!(event.ip_address, "70.41.3.18");
    assert_eq!(
        event.user_agent.as_deref(),
        Some("Mozilla/5.0 (Windows NT 10.0; Win64; x64)")
    );
    assert_eq!(event.referer.as_deref(), Some("https://google.com"));
    assert_eq!(event.country_code.as_deref(), Some("US"));
}

#[test]
fn client_ip_falls_back_to_peer() {
    assert_eq!(client_ip_of("10.0.0.1", None), "10.0.0.1");
    assert_eq!(client_ip_of("10.0.0.1", Some("1.2.3.4,  ")), "10.0.0.1");
    assert_eq!(client_ip_of("10.0.0.1", Some(" 9.9.9.9 ")), "9.9.9.9");
}

#[test]
fn empty_headers_are_not_recorded() {
    let e = extract_raw_analytics("::1", None, Some(""), Some(""), Some("   "), "abc".into());
    assert_eq!(e.ip_address, "::1");
    assert!(e.user_agent.is_none());
    assert!(e.referer.is_none());
    assert!(e.country_code.is_none());
    assert!(e.clicked_at > 0);
}

#[test]
fn user_agents_are_classified() {
    let ua = Some("Mozilla/5.0 (Windows NT 10.0; Win64; x64) AppleWebKit/537.36 (KHTML, like Gecko) Chrome/120.0.0.0 Safari/537.36".to_string());
    let (browser, device) = classify_user_agent(&ua);
    assert_eq!(browser.as_deref(), Some("Chrome"));
    assert_eq!(device.as_deref(), Some("pc"));
    assert_eq!(classify_user_agent(&None), (None, None));
}

#[test]
fn queued_clicks_become_rows_in_order() {
    let mk = |code: &str, t: i64| RawAnalyticsEvent {
        short_code: code.to_string(),
        ip_address: "192.168.1.1".to_string(),
        user_agent: None,
        referer: None,
        country_code: Some("IN".to_string()),
        clicked_at: t,
    };
    let row = to_new_entry(mk("abc456", 7));
    assert_eq!(row.short_code.as_deref(), Some("abc456"));
    assert_eq!(row.clicked_at, 7);
    assert_eq!(row.country_code.as_deref(), Some("IN"));
    let rows = to_new_entries(vec![mk("a", 1), mk("b", 2), mk("c", 3)]);
    let codes: Vec<_> = rows.iter().map(|r| r.short_code.clone().unwrap()).collect();
    assert_eq!(codes, vec!["a", "b", "c"]);
    assert!(worker_should_pause(3, 500));
    assert!(!worker_should_pause(500, 500));
}

#[test]
fn a_click_is_stamped_with_the_reading_given() {
    let e = extract_raw_analytics_at("10.0.0.1", None, Some("curl/8"), None, Some("  "), "abcd".to_string(), 1_234_567);
    assert_eq!(e.clicked_at, 1_234_567);
    assert_eq!(e.ip_address, "10.0.0.1");
    assert_eq!(e.user_agent.as_deref(), Some("curl/8"));
    assert_eq!(e.country_code, None);
}
