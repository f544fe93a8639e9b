use logpose::alias::{get_cache_ttl_for_code, is_custom_alias, validate_custom_alias};
use logpose::error::AppError;

#[test]
fn test_valid_custom_aliases() {
    let max_len_alias = "a".repeat(30);
    let valid_aliases = [
        "my-url",
        "my_url",
        "summer2026",
        "product-launch-2026",
        "sale_page_v1",
        "abcdef",
        "123456",
        max_len_alias.as_str(),
    ];

    for alias in valid_aliases {
        let result = validate_custom_alias(alias);
        assert!(result.is_ok(), "Expected valid alias: {alias}");
        assert_eq!(result.ok().unwrap(), alias.trim());
    }
}

#[test]
fn test_alias_too_short() {
    let short_aliases = ["", "a", "ab", "abc", "abcd", "abcde", "12345"];
    for alias in short_aliases {
        let result = validate_custom_alias(alias);
        assert!(result.is_err(), "Expected alias too short: {alias}");
    }
}

#[test]
fn test_alias_too_long() {
    let long_alias = "a".repeat(31);
    let result = validate_custom_alias(&long_alias);
    assert!(result.is_err(), "Expected alias too long: {long_alias}");
}

#[test]
fn test_invalid_characters() {
    let invalid_aliases = [
        "my url",
        "my.url.com",
        "my@alias",
        "alias#1",
        "link$dollar",
        "hello!",
        "slash/in/alias",
        "colon:test",
        "plus+alias",
    ];

    for alias in invalid_aliases {
        let result = validate_custom_alias(alias);
        assert!(result.is_err(), "Expected invalid character: {alias}");
    }
}

#[test]
fn test_reserved_keywords() {
    let reserved = [
        "api", "auth", "login", "signup", "billing", "health", "404", "dashboard", "settings",
        "public", "verify", "admin", "API", "Auth", "LOGIN",
    ];

    for keyword in reserved {
        let result = validate_custom_alias(keyword);
        assert!(result.is_err(), "Expected reserved keyword error: {keyword}");
    }
}

#[test]
fn test_is_custom_alias_partition() {
    assert!(!is_custom_alias("a"));
    assert!(!is_custom_alias("ab"));
    assert!(!is_custom_alias("abc"));
    assert!(!is_custom_alias("Z19a"));
    assert!(!is_custom_alias("12345"));

    assert!(is_custom_alias("123456"));
    assert!(is_custom_alias("my-url"));
    assert!(is_custom_alias("custom-alias-example"));
}

#[test]
fn test_cache_ttl_policy() {
    assert_eq!(get_cache_ttl_for_code("Z19a"), 90);
    assert_eq!(get_cache_ttl_for_code("12345"), 90);
    assert_eq!(get_cache_ttl_for_code("custom-alias"), 300);
    assert_eq!(get_cache_ttl_for_code("summer_sale_2026"), 300);
}

fn bad_request_message(r: Result<String, AppError>) -> String {
    match r {
        Err(AppError::BadRequest(m)) => m,
        _ => panic!("expected a bad request"),
    }
}

#[test]
fn alias_is_trimmed_before_checks() {
    let r = validate_custom_alias("  my-alias \t\n");
    assert_eq!(r.ok().unwrap(), "my-alias");
}

#[test]
fn alias_error_messages_follow_check_order() {
    assert_eq!(
        bad_request_message(validate_custom_alias("abc")),
        "Custom alias must be between 6 and 30 characters"
    );
    assert_eq!(
        bad_request_message(validate_custom_alias("hello world")),
        "Custom alias can only contain alphanumeric characters, hyphens, and underscores"
    );
    assert_eq!(
        bad_request_message(validate_custom_alias(" Billing ")),
        "Custom alias 'Billing' is a reserved keyword"
    );
    assert_eq!(
        bad_request_message(validate_custom_alias("Webhooks")),
        "Custom alias 'Webhooks' is a reserved keyword"
    );
    assert_eq!(
        bad_request_message(validate_custom_alias("SUBSCRIPTIONS")),
        "Custom alias 'SUBSCRIPTIONS' is a reserved keyword"
    );
}

#[test]
fn alias_length_counts_bytes() {
    // Five characters, ten bytes: long enough, but not made of allowed characters.
    assert_eq!(
        bad_request_message(validate_custom_alias("ééééé")),
        "Custom alias can only contain alphanumeric characters, hyphens, and underscores"
    );
    // Three two-byte characters make six bytes.
    assert!(is_custom_alias("ééé"));
    assert!(!is_custom_alias("éé"));
}
