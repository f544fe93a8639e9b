use logpose::auth::{GoogleCallbackQuery, GoogleUserInfo, UserResponse, UserRole, Users, auth_user_from_claims, blacklist_ttl, callback_params, claims_at, credentials_valid, generate_jwt, verify_jwt, role_name, role_of_name, Claims, claims_from_fields, ensure_oauth_state, ensure_old_password, ensure_same_user, google_username, google_username_ok, hash_password, issue_claims, login_success, new_claims, new_google_user, unauthorized_login, verify_password};
use logpose::error::AppError;

#[test]
fn hashed_passwords_verify() {
    let h = hash_password("hunter22".to_string()).ok().unwrap();
    assert!(h.starts_with("$argon2"));
    assert!(verify_password("hunter22", &h));
    assert!(!verify_password("hunter23", &h));
    assert!(!verify_password("hunter22", "not a hash"));
    assert!(credentials_valid(&h, "hunter22"));
    assert!(!credentials_valid("", "hunter22"));
}

#[test]
fn claims_and_tokens() {
    let c = new_claims(UserRole::Client, 7, 1000, 9);
    assert_eq!((c.iat, c.nbf, c.exp), (1000, 1000, 4600));
    let issued = issue_claims(UserRole::Admin, 5).unwrap();
    assert_eq!(issued.exp, issued.iat + 3600);
    let u = auth_user_from_claims(&c);
    assert_eq!((u.user_id, u.jti, u.exp), (7, 9, 4600));
    assert_eq!(blacklist_ttl(4600, 1000), 3600);
    assert_eq!(blacklist_ttl(10, 20), 0);
}

#[test]
fn login_answers() {
    let r = unauthorized_login();
    assert!(!r.success && r.data.is_none());
    let ok = login_success("tok".into(), 100);
    let d = ok.data.unwrap();
    assert_eq!(d.token_type, "bearer");
    assert_eq!(d.expires_in, 3700);
    assert_eq!(d.user, UserRole::Client);
}

#[test]
fn google_callbacks() {
    let q = |code: Option<&str>, state: Option<&str>, error: Option<&str>| GoogleCallbackQuery {
        code: code.map(String::from),
        state: state.map(String::from),
        error: error.map(String::from),
    };
    match callback_params(q(Some("c"), Some("s"), Some("denied"))) {
        Err(AppError::BadRequest(m)) => assert_eq!(m, "Google OAuth error: denied"),
        _ => panic!(),
    }
    match callback_params(q(Some("c"), None, None)) {
        Err(AppError::BadRequest(m)) => assert_eq!(m, "Missing OAuth state parameter"),
        _ => panic!(),
    }
    match callback_params(q(None, Some("s"), None)) {
        Err(AppError::BadRequest(m)) => assert_eq!(m, "Missing OAuth authorization code"),
        _ => panic!(),
    }
    assert_eq!(callback_params(q(Some("c"), Some("s"), None)).ok().unwrap(), ("s".into(), "c".into()));
    assert!(ensure_oauth_state(true).is_ok());
    assert!(ensure_oauth_state(false).is_err());
}

#[test]
fn google_accounts() {
    let info = GoogleUserInfo {
        sub: "g-1".into(),
        email: "jane.doe@example.com".into(),
        given_name: None,
        family_name: Some("Doe".into()),
        picture: None,
        email_verified: Some(true),
    };
    assert!(google_username_ok(&info.email, 1));
    let u = new_google_user(&info, 1);
    assert_eq!(u.username, "jane.doe_000000000000000000000");
    assert_eq!(u.username.len(), 30);
    assert_eq!(u.first_name, "User");
    assert_eq!(u.last_name, "Doe");
    assert_eq!(u.auth_provider, "google");
    assert_eq!(u.google_id.as_deref(), Some("g-1"));
    assert_eq!(google_username("a@b", 2), "a_0000000000000000000000000000");
    // A cut at 30 bytes would split the last "é".
    assert!(!google_username_ok("aééééééééééééééé@example.com", 1));
    assert!(google_username_ok("éééééééééééééé@example.com", 1));
}

#[test]
fn account_rules() {
    assert!(ensure_same_user(1, 1).is_ok());
    match ensure_same_user(1, 2) {
        Err(AppError::Forbidden(m)) => assert_eq!(m, "Access denied"),
        _ => panic!(),
    }
    assert!(ensure_old_password(false).is_err());
    let users = Users {
        id: 1,
        first_name: "A".into(),
        last_name: "B".into(),
        username: "ab".into(),
        email: "a@b".into(),
        hashed_password: "h".into(),
        avatar_url: None,
        google_id: None,
        auth_provider: "local".into(),
        created_at: 1,
        updated_at: 2,
    };
    let r = UserResponse::from(users);
    assert_eq!(r.username, "ab");
    assert_eq!(r.updated_at, 2);
}

#[test]
fn claims_at_a_clock_reading() {
    let c = claims_at(UserRole::Client, 42, 1_700_000_000, 9).unwrap();
    assert_eq!((c.sub, c.iat, c.nbf, c.exp, c.jti), (42, 1_700_000_000, 1_700_000_000, 1_700_003_600, 9));
    assert!(claims_at(UserRole::Client, 42, -1, 9).is_none());
    // Every non-negative reading leaves room for the expiry in a u64.
    assert_eq!(claims_at(UserRole::Client, 42, i64::MAX, 9).unwrap().exp, i64::MAX as u64 + 3600);
}

#[test]
fn hashing_succeeds_on_ordinary_passwords() {
    for p in ["", "a", "correct horse battery staple", "pässwörd"] {
        let h = hash_password(p.to_string()).ok().unwrap();
        assert!(verify_password(p, &h));
    }
}

#[test]
fn issued_tokens_read_back() {
    let claims = claims_at(UserRole::Client, 0x1234_5678_9abc_def0_1122_3344_5566_7788, 4_000_000_000, 77).unwrap();
    let token = generate_jwt(&claims, "s3cret").ok().unwrap();
    assert_eq!(token.split('.').count(), 3);
    let back: Claims = verify_jwt(&token, "s3cret").unwrap();
    assert_eq!((back.sub, back.iat, back.nbf, back.exp, back.jti), (claims.sub, claims.iat, claims.nbf, claims.exp, claims.jti));
    assert_eq!(back.role, UserRole::Client);
    // Another secret, a tampered token, or an expired one is refused.
    assert!(verify_jwt(&token, "other").is_none());
    assert!(verify_jwt(&format!("{token}x"), "s3cret").is_none());
    let old = claims_at(UserRole::Admin, 1, 1_000, 2).unwrap();
    let expired = generate_jwt(&old, "s3cret").ok().unwrap();
    assert!(verify_jwt(&expired, "s3cret").is_none());
}

#[test]
fn role_names() {
    assert_eq!(role_name(UserRole::Admin), "Admin");
    assert_eq!(role_of_name("Client"), Some(UserRole::Client));
    assert_eq!(role_of_name("client"), None);
}

#[test]
fn token_fields_to_claims() {
    let id = "67e55044-10b1-426f-9247-bb680e5fe0c8";
    let c = claims_from_fields(id, "Admin", 1, 2, 3, id).unwrap();
    assert_eq!(c.sub, 0x67e55044_10b1_426f_9247_bb680e5fe0c8);
    assert_eq!((c.role, c.iat, c.nbf, c.exp), (UserRole::Admin, 1, 2, 3));
    assert!(claims_from_fields("not-a-uuid", "Admin", 1, 2, 3, id).is_none());
    assert!(claims_from_fields(id, "Root", 1, 2, 3, id).is_none());
}

fn base64url_decode(s: &str) -> Vec<u8> {
    let alphabet = b"ABCDEFGHIJKLMNOPQRSTUVWXYZabcdefghijklmnopqrstuvwxyz0123456789-_";
    let mut bits: u32 = 0;
    let mut n = 0;
    let mut out = Vec::new();
    for c in s.bytes() {
        let v = alphabet.iter().position(|&a| a == c).unwrap() as u32;
        bits = (bits << 6) | v;
        n += 6;
        if n >= 8 {
            n -= 8;
            out.push((bits >> n) as u8);
            bits &= (1 << n) - 1;
        }
    }
    out
}

#[test]
fn token_claims_keep_the_field_order() {
    let claims = claims_at(UserRole::Client, 1, 4_000_000_000, 2).unwrap();
    let token = generate_jwt(&claims, "k").ok().unwrap();
    let payload = String::from_utf8(base64url_decode(token.split('.').nth(1).unwrap())).unwrap();
    let order: Vec<usize> = ["\"sub\"", "\"iat\"", "\"nbf\"", "\"exp\"", "\"role\"", "\"jti\""]
        .iter()
        .map(|k| payload.find(k).unwrap())
        .collect();
    assert!(order.windows(2).all(|w| w[0] < w[1]), "{payload}");
    assert!(payload.contains("\"role\":\"Client\""));
    assert!(payload.contains("\"sub\":\"00000000-0000-0000-0000-000000000001\""));
}
