use logpose::billing::{BillingInterval, Plan};
use logpose::error::AppError;
use logpose::shortcode::{encode, ShortCodeCipher, RADIX};
use logpose::urls::{NewUrlRequest, UrlAction, UrlLookup, authorize_create, blacklist_entry, cache_entry_for, cached_target, CacheRead, cache_write_acknowledged, check_alias_free, check_custom_alias_allowed, check_long_url, check_url_quota, ensure_url_owner, ensure_analytics_access, generate_qr_svg, generic_qr_target, genrate, guest_expiry, guest_identity, new_guest_url, not_found_redirect, qr_target_url, resolve_short_code, url_cache_key, wants_json};

fn plan(limit: i32, aliases: bool) -> Plan {
    Plan {
        id: 1,
        name: "Free".into(),
        code: "plan_free".into(),
        description: None,
        amount: 0,
        currency: "INR".into(),
        interval: BillingInterval::Lifetime,
        max_urls_limit: limit,
        custom_alias_allowed: aliases,
        analytics_retention_days: 7,
        features: "{}".into(),
        is_active: true,
        created_at: 0,
        updated_at: 0,
    }
}

fn forbidden(r: Result<(), AppError>) -> String {
    match r {
        Err(AppError::Forbidden(m)) => m,
        _ => panic!("expected forbidden"),
    }
}

#[test]
fn creation_rules() {
    let req = NewUrlRequest { long_url: "https://a.b".into(), created_by: 5, custom_alias: None };
    assert!(authorize_create(5, &req).is_ok());
    assert_eq!(forbidden(authorize_create(6, &req)), "Cannot create URL for another user");
    let long = NewUrlRequest { long_url: "x".repeat(2049), created_by: 5, custom_alias: None };
    assert!(matches!(authorize_create(5, &long), Err(AppError::BadRequest(_))));
    assert!(check_long_url(&"x".repeat(2048)).is_ok());
    assert!(check_url_quota(1, &plan(2, false)).is_ok());
    assert_eq!(
        forbidden(check_url_quota(2, &plan(2, false))),
        "Plan URL limit reached. Upgrade to create more URLs"
    );
    assert!(check_custom_alias_allowed(&plan(2, false)).is_err());
    assert!(check_custom_alias_allowed(&plan(2, true)).is_ok());
    assert!(check_alias_free(false).is_ok());
    assert!(check_alias_free(true).is_err());
}

#[test]
fn ownership_rules() {
    assert!(ensure_url_owner(Some(1), 1, UrlAction::Update).is_ok());
    assert_eq!(
        forbidden(ensure_url_owner(Some(1), 2, UrlAction::Delete)),
        "You are not allowed to delete this URL"
    );
    assert_eq!(
        forbidden(ensure_url_owner(None, 2, UrlAction::Update)),
        "You are not allowed to update this URL"
    );
}

#[test]
fn guests() {
    assert_eq!(guest_identity(Some(4), 9), (4, false));
    assert_eq!(guest_identity(None, 9), (9, true));
    assert_eq!(guest_expiry(0), 86_400_000_000);
    let u = new_guest_url("https://x.y".into(), 3, 77);
    assert_eq!(u.guest_id, Some(3));
    assert_eq!(u.created_by, None);
    assert_eq!(u.expires_at, Some(77));
}

#[test]
fn resolving_codes() {
    let ff = ShortCodeCipher::new(b"abcdefghijklmnopqrstuvwxyz123456", RADIX);
    match resolve_short_code("my-alias", &ff).ok().unwrap() {
        UrlLookup::Alias(a) => assert_eq!(a, "my-alias"),
        _ => panic!("expected an alias"),
    }
    let code = encode(42, &ff).ok().unwrap();
    match resolve_short_code(&code, &ff).ok().unwrap() {
        UrlLookup::DatabaseId(id) => assert_eq!(id, 42),
        _ => panic!("expected an id"),
    }
    assert!(resolve_short_code("a!", &ff).is_err());
}

#[test]
fn cache_and_redirects() {
    assert_eq!(url_cache_key("Z19a"), "url:Z19a");
    assert_eq!(cache_entry_for("custom-alias"), ("url:custom-alias".to_string(), 300));
    assert_eq!(cache_entry_for("Z19a").1, 90);
    let (k, v) = blacklist_entry(1);
    assert_eq!(k, "blacklist:00000000-0000-0000-0000-000000000001");
    assert_eq!(v, "00000000-0000-0000-0000-000000000001");
    assert!(cache_write_acknowledged(Some("OK")));
    assert!(!cache_write_acknowledged(Some("ok")));
    assert!(!cache_write_acknowledged(None));
    assert_eq!(not_found_redirect(""), "/404");
    assert_eq!(not_found_redirect("https://app.example//"), "https://app.example/404");
}

#[test]
fn qr_codes() {
    assert_eq!(
        qr_target_url(None, Some("sho.rt"), Some("https"), "Z19a"),
        "https://sho.rt/Z19a"
    );
    assert_eq!(qr_target_url(None, None, None, "abc"), "http://localhost:8000/abc");
    assert_eq!(qr_target_url(Some("https://x".into()), None, None, "abc"), "https://x");
    assert!(generic_qr_target(None).is_err());
    assert!(wants_json(Some("json")));
    assert!(!wants_json(Some("svg")));
    let svg = generate_qr_svg("https://sho.rt/Z19a", None, None).unwrap();
    assert!(svg.contains("<svg"));
    assert!(svg.contains("#000000"));
    let red = generate_qr_svg("hello", Some("#ff0000"), Some("#00ff00")).unwrap();
    assert!(red.contains("#ff0000"));
    let err = generate_qr_svg(&"x".repeat(5000), None, None).unwrap_err();
    assert!(err.starts_with("Failed to generate QR code: "));
}

#[test]
fn content_hash() {
    // MD5 of "abc" followed by "" is the well-known digest of "abc".
    assert_eq!(genrate("abc".into(), "".into()), "900150983cd24fb0d6963f7d28e17f72");
    assert_eq!(genrate("a".into(), "bc".into()), genrate("ab".into(), "c".into()));
}

#[test]
fn analytics_access_is_for_the_owner() {
    assert!(ensure_analytics_access(Some(7), 7).is_ok());
    for owner in [Some(8u128), None] {
        match ensure_analytics_access(owner, 7) {
            Err(AppError::Forbidden(m)) => assert_eq!(m, "Access denied"),
            _ => panic!("expected a refusal"),
        }
    }
}

#[test]
fn only_a_cache_hit_settles_the_target() {
    assert_eq!(cached_target(CacheRead::Hit("https://x.y".to_string())).as_deref(), Some("https://x.y"));
    assert_eq!(cached_target(CacheRead::Miss), None);
    assert_eq!(cached_target(CacheRead::Unavailable), None);
}
