//! Authentication: password hashing, token claims, logins and Google sign-in.
use vstd::prelude::*;

use argon2::password_hash::rand_core::OsRng;
use argon2::password_hash::{PasswordHash, PasswordHasher, PasswordVerifier, SaltString};
use argon2::Argon2;
use jsonwebtoken::{decode, encode, Algorithm, DecodingKey, EncodingKey, Header, Validation};

use crate::error::AppError;
use crate::ids::{
    lemma_uuid_round_trip, new_uuid_v4, parse_uuid, uuid_hyphenated, uuid_hyphenated_string,
    uuid_parsed, uuid_simple,
    uuid_simple_string,
};
use crate::text::{byte_len, chars_eq_str, chars_of, concat, string_from_chars};

verus! {

broadcast use vstd::string::group_string_axioms;

#[verifier::external_type_specification]
#[verifier::external_body]
pub struct ExPasswordHashError(argon2::password_hash::Error);

/// Seconds a token stays valid.
pub const DURATION: u64 = 3600;

// ---------------------------------------------------------------------------
// Passwords

/// The PHC string Argon2 (its default variant and parameters) makes of
/// `password` with the base64 salt `salt`.
pub uninterp spec fn argon2_phc(password: Seq<u8>, salt: Seq<char>) -> Seq<char>;

/// Whether `password` matches the PHC string `phc` under Argon2 (false where
/// `phc` does not parse).
pub uninterp spec fn argon2_verifies(password: Seq<u8>, phc: Seq<char>) -> bool;

/// `phc` parsed as a PHC string and written out again, or `None` where it
/// does not parse.
pub uninterp spec fn phc_reparse(phc: Seq<char>) -> Option<Seq<char>>;

/// A character of the B64 alphabet (standard base64, no padding).
pub open spec fn is_b64_char(c: char) -> bool {
    ||| ('A' <= c && c <= 'Z')
    ||| ('a' <= c && c <= 'z')
    ||| ('0' <= c && c <= '9')
    ||| c == '+'
    ||| c == '/'
}

/// The shape of the B64 encoding of 16 bytes: 22 characters, the last of which
/// carries two bits of data and four zero bits.
pub open spec fn b64_of_16_bytes(s: Seq<char>) -> bool {
    &&& s.len() == 22
    &&& forall|i: int| 0 <= i < 22 ==> #[trigger] is_b64_char(s[i])
    &&& (s[21] == 'A' || s[21] == 'Q' || s[21] == 'g' || s[21] == 'w')
}

/// The longest password, in bytes, Argon2 accepts.
pub open spec fn max_password_len() -> nat {
    0xFFFF_FFFF
}

/// `SaltString::generate` with the operating system's generator: 16 random
/// bytes in B64.
#[verifier::external_body]
fn random_salt() -> (s: String)
    ensures
        b64_of_16_bytes(s@),
{
    SaltString::generate(&mut OsRng).as_str().to_string()
}

/// `Argon2::hash_password` with the given base64 salt, written as a PHC
/// string. With the 16-byte salts `random_salt` makes it fails only on a
/// password longer than `max_password_len()` bytes. The hash verifies against
/// the password it was made from, and parsing and writing it out again gives
/// the same string.
#[verifier::external_body]
fn argon2_hash(password: &[u8], salt: &str) -> (r: Result<String, argon2::password_hash::Error>)
    ensures
        b64_of_16_bytes(salt@) && password@.len() <= max_password_len() ==> r is Ok,
        r matches Ok(h) ==> h@ == argon2_phc(password@, salt@),
        r matches Ok(h) ==> argon2_verifies(password@, h@),
        r matches Ok(h) ==> phc_reparse(h@) == Some(h@),
{
    let salt = SaltString::from_b64(salt)?;
    Argon2::default().hash_password(password, &salt).map(|h| h.to_string())
}

/// `PasswordHash::new` followed by `to_string`.
#[verifier::external_body]
fn phc_reformat(phc: &str) -> (r: Result<String, argon2::password_hash::Error>)
    ensures
        match r {
            Ok(t) => phc_reparse(phc@) == Some(t@),
            Err(_) => phc_reparse(phc@) is None,
        },
{
    PasswordHash::new(phc).map(|h| h.to_string())
}

/// `Argon2::verify_password` against a PHC string; false where it does not parse.
#[verifier::external_body]
fn argon2_verify(password: &[u8], phc: &str) -> (b: bool)
    ensures
        b == argon2_verifies(password@, phc@),
{
    match PasswordHash::new(phc) {
        Ok(h) => Argon2::default().verify_password(password, &h).is_ok(),
        Err(_) => false,
    }
}

/// The bytes of a password.
pub open spec fn password_bytes(p: Seq<char>) -> Seq<u8> {
    vstd::utf8::encode_utf8(p)
}

/// Hashes a password with Argon2 and a fresh random salt. It succeeds on every
/// password of at most `max_password_len()` bytes, and a hash it returns
/// verifies against the password.
pub fn hash_password(password: String) -> (r: Result<String, argon2::password_hash::Error>)
    ensures
        password_bytes(password@).len() <= max_password_len() ==> r is Ok,
        r matches Ok(h) ==> argon2_verifies(password_bytes(password@), h@),
{
    let password_as_bytes = password.as_str().as_bytes();
    let salt = random_salt();
    let hashed = argon2_hash(password_as_bytes, salt.as_str())?;
    let normalized = phc_reformat(hashed.as_str())?;
    Ok(normalized)
}

/// Whether a password matches a stored PHC hash; false where the hash does
/// not parse.
pub fn verify_password(password: &str, stored_hash: &str) -> (b: bool)
    ensures
        b == argon2_verifies(password_bytes(password@), stored_hash@),
{
    argon2_verify(password.as_bytes(), stored_hash)
}

/// Whether a login with `password` succeeds against the stored hash: users
/// without a password (Google sign-in only) never log in with one.
pub fn credentials_valid(stored_hash: &str, password: &str) -> (b: bool)
    ensures
        b == (stored_hash@.len() > 0 && argon2_verifies(password_bytes(password@), stored_hash@)),
{
    !stored_hash.is_empty() && verify_password(password, stored_hash)
}

// ---------------------------------------------------------------------------
// Tokens

#[derive(Clone, Copy, Debug, PartialEq, Eq, Structural)]
pub enum UserRole {
    Admin,
    Client,
}

/// The claims a token carries; times are seconds since the Unix epoch.
pub struct Claims {
    pub sub: u128,
    pub role: UserRole,
    pub iat: u64,
    pub nbf: u64,
    pub exp: u64,
    pub jti: u128,
}

/// The user a request is made by, as its token says.
pub struct AuthUser {
    pub user_id: u128,
    pub jti: u128,
    pub exp: u64,
}

/// `chrono::Utc::now`, in seconds since the Unix epoch (depends on the clock).
#[verifier::external_body]
pub(crate) fn now_secs() -> (t: i64) {
    chrono::Utc::now().timestamp()
}

/// The claims of a token issued at `now`: valid from `now` for `DURATION` seconds.
pub fn new_claims(role: UserRole, user_id: u128, now: u64, jti: u128) -> (c: Claims)
    requires
        now + DURATION <= u64::MAX,
    ensures
        c.sub == user_id,
        c.role == role,
        c.iat == now,
        c.nbf == now,
        c.exp == now + DURATION,
        c.jti == jti,
{
    Claims { sub: user_id, role, iat: now, nbf: now, exp: now + DURATION, jti }
}

/// The claims of a token issued at clock reading `now` (seconds since the
/// epoch) with id `jti`; `None` where the reading is before the epoch or so late
/// that the expiry would not fit.
pub fn claims_at(role: UserRole, user_id: u128, now: i64, jti: u128) -> (c: Option<Claims>)
    ensures
        (0 <= now && now + DURATION <= u64::MAX) <==> c is Some,
        c matches Some(c) ==> c.sub == user_id && c.role == role && c.iat == now && c.nbf == now
            && c.exp == now + DURATION && c.jti == jti,
{
    if now < 0 || now as u64 > u64::MAX - DURATION {
        return None;
    }
    Some(new_claims(role, user_id, now as u64, jti))
}

/// The claims of a token issued now, with a fresh random id; `None` where the
/// clock reads before the epoch or so late that the expiry would not fit.
pub fn issue_claims(role: UserRole, user_id: u128) -> (c: Option<Claims>)
    ensures
        c matches Some(c) ==> c.sub == user_id && c.role == role && c.nbf == c.iat
            && c.exp == c.iat + DURATION,
{
    claims_at(role, user_id, now_secs(), new_uuid_v4())
}

/// The user a verified token names.
pub fn auth_user_from_claims(c: &Claims) -> (u: AuthUser)
    ensures
        u.user_id == c.sub,
        u.jti == c.jti,
        u.exp == c.exp,
{
    AuthUser { user_id: c.sub, jti: c.jti, exp: c.exp }
}

// ---------------------------------------------------------------------------
// Signed tokens

/// The HS256 JSON Web Token `jsonwebtoken::encode` makes of the claims object
/// `{sub, iat, nbf, exp, role, jti}` (strings `sub`, `role`, `jti`, numbers
/// `iat`, `nbf`, `exp`) under `secret`.
pub uninterp spec fn jwt_hs256(sub: Seq<char>, role: Seq<char>, iat: u64, nbf: u64, exp: u64, jti: Seq<char>, secret: Seq<char>) -> Seq<char>;

/// `jsonwebtoken::encode` with an HS256 header and a secret key, of the claims
/// object built from the given fields, kept in the order `sub`, `iat`, `nbf`,
/// `exp`, `role`, `jti` (the claims struct's field order; `serde_json` keeps
/// insertion order here). With an HMAC key and an HMAC algorithm
/// the call cannot fail: the key may have any length and a JSON value always
/// serialises.
#[verifier::external_body]
fn jwt_encode_hs256(sub: &str, role: &str, iat: u64, nbf: u64, exp: u64, jti: &str, secret: &str) -> (r: Result<String, String>)
    ensures
        r is Ok,
        r matches Ok(t) ==> t@ == jwt_hs256(sub@, role@, iat, nbf, exp, jti@, secret@),
{
    let mut m = serde_json::Map::new();
    m.insert("sub".to_string(), sub.into());
    m.insert("iat".to_string(), iat.into());
    m.insert("nbf".to_string(), nbf.into());
    m.insert("exp".to_string(), exp.into());
    m.insert("role".to_string(), role.into());
    m.insert("jti".to_string(), jti.into());
    let key = EncodingKey::from_secret(secret.as_bytes());
    encode(&Header::new(Algorithm::HS256), &serde_json::Value::Object(m), &key).map_err(|e| e.to_string())
}

/// `jsonwebtoken::decode` with HS256 validation of the signature, of an `exp`
/// claim being present and of no audience being named, but not of the expiry
/// (which is decided by `verify_jwt_at`, so no clock is read here), then the six
/// claim fields read off the claims object. A token made by `jwt_encode_hs256`
/// under the same secret is accepted and gives back the fields it was made of.
#[verifier::external_body]
fn jwt_decode_hs256(token: &str, secret: &str) -> (r: Option<(String, String, u64, u64, u64, String)>)
    ensures
        forall|sub: Seq<char>, role: Seq<char>, iat: u64, nbf: u64, exp: u64, jti: Seq<char>|
            token@ == #[trigger] jwt_hs256(sub, role, iat, nbf, exp, jti, secret@)
                ==> (r is Some && (r->0).0@ == sub && (r->0).1@ == role && (r->0).2 == iat
                && (r->0).3 == nbf && (r->0).4 == exp && (r->0).5@ == jti),
{
    let key = DecodingKey::from_secret(secret.as_bytes());
    let mut validation = Validation::new(Algorithm::HS256);
    validation.validate_exp = false;
    let c = decode::<serde_json::Value>(token, &key, &validation).ok()?.claims;
    let text = |k: &str| c.get(k).and_then(|v| v.as_str()).map(|s| s.to_string());
    let num = |k: &str| c.get(k).and_then(|v| v.as_u64());
    Some((text("sub")?, text("role")?, num("iat")?, num("nbf")?, num("exp")?, text("jti")?))
}

/// How a role is written in a token.
pub open spec fn role_text(role: UserRole) -> Seq<char> {
    match role {
        UserRole::Admin => "Admin"@,
        UserRole::Client => "Client"@,
    }
}

/// How a role is written in a token.
pub fn role_name(role: UserRole) -> (s: &'static str)
    ensures
        s@ == role_text(role),
{
    match role {
        UserRole::Admin => "Admin",
        UserRole::Client => "Client",
    }
}

/// The role a token names, if it names one.
pub fn role_of_name(name: &str) -> (r: Option<UserRole>)
    ensures
        r == if name@ == "Admin"@ {
            Some(UserRole::Admin)
        } else if name@ == "Client"@ {
            Some(UserRole::Client)
        } else {
            None::<UserRole>
        },
{
    let c = chars_of(name);
    if chars_eq_str(c.as_slice(), "Admin") {
        Some(UserRole::Admin)
    } else if chars_eq_str(c.as_slice(), "Client") {
        Some(UserRole::Client)
    } else {
        None
    }
}

/// The token of claims `c` under `secret`: UUIDs are written hyphenated.
pub open spec fn token_of(c: Claims, secret: Seq<char>) -> Seq<char> {
    jwt_hs256(
        uuid_hyphenated(c.sub),
        role_text(c.role),
        c.iat,
        c.nbf,
        c.exp,
        uuid_hyphenated(c.jti),
        secret,
    )
}

/// `t` is the token of `c` under `secret`.
pub open spec fn issued_token(c: Claims, secret: Seq<char>, t: Seq<char>) -> bool {
    t == token_of(c, secret)
}

/// What reading `t` under `secret` gave: claims it accepts are the claims the
/// token was issued for.
pub open spec fn reads_back(t: Seq<char>, secret: Seq<char>, r: Option<Claims>) -> bool {
    forall|c: Claims| #[trigger] issued_token(c, secret, t) && r is Some ==> r == Some(c)
}

/// Signs the claims with HS256 under `secret`; it never fails.
pub fn generate_jwt(claims: &Claims, secret: &str) -> (r: Result<String, AppError>)
    ensures
        r matches Ok(t) && issued_token(*claims, secret@, t@),
{
    let sub = uuid_hyphenated_string(claims.sub);
    let jti = uuid_hyphenated_string(claims.jti);
    match jwt_encode_hs256(
        sub.as_str(),
        role_name(claims.role),
        claims.iat,
        claims.nbf,
        claims.exp,
        jti.as_str(),
        secret,
    ) {
        Ok(t) => Ok(t),
        Err(e) => Err(AppError::Jwt(e)),
    }
}

proof fn lemma_role_round_trip(role: UserRole)
    ensures
        role_of_text(role_text(role)) == Some(role),
{
    reveal_strlit("Admin");
    reveal_strlit("Client");
    assert("Admin"@[0] != "Client"@[0]);
}

/// The role a token's role text names.
pub open spec fn role_of_text(name: Seq<char>) -> Option<UserRole> {
    if name == "Admin"@ {
        Some(UserRole::Admin)
    } else if name == "Client"@ {
        Some(UserRole::Client)
    } else {
        None
    }
}

/// The claims a token's fields stand for: both UUIDs must parse and the role
/// must be one of the two names.
pub open spec fn fields_claims(sub: Seq<char>, role: Seq<char>, iat: u64, nbf: u64, exp: u64, jti: Seq<char>) -> Option<Claims> {
    match (uuid_parsed(sub), role_of_text(role), uuid_parsed(jti)) {
        (Some(s), Some(r), Some(j)) => Some(Claims { sub: s, role: r, iat, nbf, exp, jti: j }),
        _ => None,
    }
}

/// The claims the fields read off a token stand for, or `None`.
pub fn claims_from_fields(sub: &str, role: &str, iat: u64, nbf: u64, exp: u64, jti: &str) -> (r: Option<Claims>)
    ensures
        r == fields_claims(sub@, role@, iat, nbf, exp, jti@),
{
    let sub_id = match parse_uuid(sub) {
        Some(u) => u,
        None => return None,
    };
    let role = match role_of_name(role) {
        Some(r) => r,
        None => return None,
    };
    let jti_id = match parse_uuid(jti) {
        Some(u) => u,
        None => return None,
    };
    Some(Claims { sub: sub_id, role, iat, nbf, exp, jti: jti_id })
}

/// Seconds past its expiry during which a token is still accepted.
pub const JWT_LEEWAY: u64 = 60;

/// Whether a token expiring at `exp` is refused at clock reading `now`
/// (seconds since the epoch): once `exp` plus the leeway has passed.
pub open spec fn token_expired(exp: u64, now: u64) -> bool {
    exp + JWT_LEEWAY < now
}

/// What reading token `t` under `secret` at clock reading `now` gave: claims
/// it accepts are the claims the token was issued for, and a token issued for
/// `c` is accepted, as `c`, exactly while it has not expired.
pub open spec fn jwt_read_at(t: Seq<char>, secret: Seq<char>, now: u64, r: Option<Claims>) -> bool {
    &&& reads_back(t, secret, r)
    &&& forall|c: Claims| #[trigger] issued_token(c, secret, t) ==> r == if token_expired(c.exp, now) {
        None
    } else {
        Some(c)
    }
}

/// The claims of a token signed under `secret`, read at clock reading `now`
/// (seconds since the epoch): `None` where the signature or the claims do not
/// check out, or where the token expired more than `JWT_LEEWAY` seconds ago.
pub fn verify_jwt_at(token: &str, secret: &str, now: u64) -> (r: Option<Claims>)
    ensures
        jwt_read_at(token@, secret@, now, r),
        r matches Some(c) ==> !token_expired(c.exp, now),
{
    let (sub, role, iat, nbf, exp, jti) = match jwt_decode_hs256(token, secret) {
        Some(f) => f,
        None => return None,
    };
    let decoded = claims_from_fields(sub.as_str(), role.as_str(), iat, nbf, exp, jti.as_str());
    let r = match decoded {
        Some(c) => if (c.exp as u128) + (JWT_LEEWAY as u128) < (now as u128) {
            None
        } else {
            Some(c)
        },
        None => None,
    };
    assert forall|c: Claims| #[trigger] issued_token(c, secret@, token@) implies decoded == Some(c) by {
        lemma_role_round_trip(c.role);
        lemma_uuid_round_trip(c.sub);
        lemma_uuid_round_trip(c.jti);
        assert(token@ == jwt_hs256(
            uuid_hyphenated(c.sub),
            role_text(c.role),
            c.iat,
            c.nbf,
            c.exp,
            uuid_hyphenated(c.jti),
            secret@,
        ));
    }
    r
}

/// The claims of a token signed under `secret` that is valid now, or `None`;
/// it is `verify_jwt_at` at the clock's reading (a reading before the epoch
/// counts as the epoch).
pub fn verify_jwt(token: &str, secret: &str) -> (r: Option<Claims>)
    ensures
        reads_back(token@, secret@, r),
        exists|now: u64| #[trigger] jwt_read_at(token@, secret@, now, r),
{
    let clock = now_secs();
    let now: u64 = if clock < 0 {
        0
    } else {
        clock as u64
    };
    let r = verify_jwt_at(token, secret, now);
    assert(jwt_read_at(token@, secret@, now, r));
    r
}

/// A token `generate_jwt` issued reads back, under the same secret, as the
/// claims it was issued for, whenever `verify_jwt` accepts it.
pub proof fn law_token_round_trip(c: Claims, secret: Seq<char>, t: Seq<char>, r: Option<Claims>)
    requires
        issued_token(c, secret, t),
        reads_back(t, secret, r),
        r is Some,
    ensures
        r == Some(c),
{
}

/// A token issued for `c` is accepted, and gives back `c`, at every clock
/// reading up to a minute past its expiry; after that it is refused.
pub proof fn law_token_valid_until_expiry(c: Claims, secret: Seq<char>, t: Seq<char>, now: u64, r: Option<Claims>)
    requires
        issued_token(c, secret, t),
        jwt_read_at(t, secret, now, r),
    ensures
        now <= c.exp + 60 ==> r == Some(c),
        now > c.exp + 60 ==> r is None,
{
}

/// A token of claims made at clock reading `iat` (which run `DURATION`
/// seconds) is accepted, as those claims, at every reading up to an hour and a
/// minute later, however long ago within that span it was issued.
pub proof fn law_fresh_token_accepted(c: Claims, secret: Seq<char>, t: Seq<char>, now: u64, r: Option<Claims>)
    requires
        issued_token(c, secret, t),
        c.exp == c.iat + DURATION,
        jwt_read_at(t, secret, now, r),
        now <= c.iat + DURATION + 60,
    ensures
        r == Some(c),
{
}

/// How many seconds a revoked token must stay on the block list: until it
/// expires, and not at all once it has.
pub fn blacklist_ttl(exp: u64, now: u64) -> (ttl: u64)
    ensures
        ttl == if exp >= now { (exp - now) as u64 } else { 0 },
{
    exp.saturating_sub(now)
}

// ---------------------------------------------------------------------------
// Logins

pub struct LoginRequest {
    pub login_id: String,
    pub password: String,
}

pub struct LoginData {
    pub user: UserRole,
    pub token: String,
    pub token_type: String,
    pub expires_in: usize,
}

pub struct LoginResponse {
    pub data: Option<LoginData>,
    pub success: bool,
}

/// The answer to a refused login.
pub fn unauthorized_login() -> (r: LoginResponse)
    ensures
        !r.success,
        r.data is None,
{
    LoginResponse { data: None, success: false }
}

/// The answer to a successful login at `now`: a bearer token for a client,
/// valid for `DURATION` seconds.
pub fn login_success(token: String, now: usize) -> (r: LoginResponse)
    requires
        now + DURATION <= usize::MAX,
    ensures
        r.success,
        r.data matches Some(d) && d.user == UserRole::Client && d.token == token
            && d.token_type@ == "bearer"@ && d.expires_in == now + DURATION,
{
    let data = LoginData {
        user: UserRole::Client,
        token,
        token_type: "bearer".to_string(),
        expires_in: now + DURATION as usize,
    };
    LoginResponse { data: Some(data), success: true }
}

// ---------------------------------------------------------------------------
// Users

pub struct Users {
    pub id: u128,
    pub first_name: String,
    pub last_name: String,
    pub username: String,
    pub email: String,
    pub hashed_password: String,
    pub avatar_url: Option<String>,
    pub google_id: Option<String>,
    pub auth_provider: String,
    pub created_at: i64,
    pub updated_at: i64,
}

pub struct NewUser {
    pub email: String,
    pub username: String,
    pub last_name: String,
    pub first_name: String,
    pub hashed_password: String,
    pub avatar_url: Option<String>,
    pub google_id: Option<String>,
    pub auth_provider: String,
}

pub struct NewUserRequest {
    pub email: String,
    pub username: String,
    pub password: String,
    pub last_name: String,
    pub first_name: String,
}

pub struct RegisterRequest {
    pub email: String,
    pub username: String,
    pub password: String,
    pub last_name: String,
    pub first_name: String,
}

/// A user as shown to clients: without the password hash and the Google id.
pub struct UserResponse {
    pub id: u128,
    pub email: String,
    pub username: String,
    pub last_name: String,
    pub first_name: String,
    pub avatar_url: Option<String>,
    pub auth_provider: String,
    pub created_at: i64,
    pub updated_at: i64,
}

impl From<Users> for UserResponse {
    fn from(user: Users) -> (r: UserResponse) {
        UserResponse {
            id: user.id,
            email: user.email,
            username: user.username,
            last_name: user.last_name,
            first_name: user.first_name,
            avatar_url: user.avatar_url,
            auth_provider: user.auth_provider,
            created_at: user.created_at,
            updated_at: user.updated_at,
        }
    }
}

impl vstd::std_specs::convert::FromSpecImpl<Users> for UserResponse {
    open spec fn obeys_from_spec() -> bool {
        true
    }

    open spec fn from_spec(user: Users) -> UserResponse {
        UserResponse {
            id: user.id,
            email: user.email,
            username: user.username,
            last_name: user.last_name,
            first_name: user.first_name,
            avatar_url: user.avatar_url,
            auth_provider: user.auth_provider,
            created_at: user.created_at,
            updated_at: user.updated_at,
        }
    }
}

pub struct UpdateUser {
    pub username: String,
    pub last_name: String,
    pub first_name: String,
}

pub struct UpdateRequest {
    pub username: String,
    pub last_name: String,
    pub first_name: String,
}

pub struct UpdatePassword {
    pub hashed_password: String,
}

pub struct UpdatePasswordRequest {
    pub old_password: String,
    pub new_password: String,
}

pub struct UpdateOAuthProfile {
    pub first_name: String,
    pub last_name: String,
    pub avatar_url: Option<String>,
    pub google_id: Option<String>,
}

/// The account of a local sign-up.
pub fn local_new_user(payload: &NewUserRequest, hashed_password: String) -> (u: NewUser)
    ensures
        u.email == payload.email,
        u.username == payload.username,
        u.first_name == payload.first_name,
        u.last_name == payload.last_name,
        u.hashed_password == hashed_password,
        u.avatar_url is None,
        u.google_id is None,
        u.auth_provider@ == "local"@,
{
    NewUser {
        email: payload.email.clone(),
        username: payload.username.clone(),
        last_name: payload.last_name.clone(),
        first_name: payload.first_name.clone(),
        hashed_password,
        avatar_url: None,
        google_id: None,
        auth_provider: "local".to_string(),
    }
}

/// The changes a profile update asks for.
pub fn user_update(payload: &UpdateRequest) -> (u: UpdateUser)
    ensures
        u.username == payload.username,
        u.first_name == payload.first_name,
        u.last_name == payload.last_name,
{
    UpdateUser {
        username: payload.username.clone(),
        last_name: payload.last_name.clone(),
        first_name: payload.first_name.clone(),
    }
}

/// A user may only act on their own account.
pub fn ensure_same_user(path_id: u128, user_id: u128) -> (r: Result<(), AppError>)
    ensures
        path_id == user_id <==> r is Ok,
        r matches Err(e) ==> e matches AppError::Forbidden(m) && m@ == "Access denied"@,
{
    if path_id != user_id {
        return Err(AppError::Forbidden("Access denied".to_string()));
    }
    Ok(())
}

/// A password change needs the old password.
pub fn ensure_old_password(matches: bool) -> (r: Result<(), AppError>)
    ensures
        matches <==> r is Ok,
        r matches Err(e) ==> e matches AppError::BadRequest(m) && m@ == "Old password does not match"@,
{
    if !matches {
        return Err(AppError::BadRequest("Old password does not match".to_string()));
    }
    Ok(())
}

// ---------------------------------------------------------------------------
// Google sign-in

pub struct GoogleCallbackQuery {
    pub code: Option<String>,
    pub state: Option<String>,
    pub error: Option<String>,
}

pub struct GoogleUserInfo {
    pub sub: String,
    pub email: String,
    pub given_name: Option<String>,
    pub family_name: Option<String>,
    pub picture: Option<String>,
    pub email_verified: Option<bool>,
}

/// The state and code of an OAuth callback, or why it is refused: Google
/// reported an error, or the state or the code is missing (checked in that order).
pub fn callback_params(query: GoogleCallbackQuery) -> (r: Result<(String, String), AppError>)
    ensures
        query.error matches Some(err) ==> (r matches Err(AppError::BadRequest(m))
            && m@ == "Google OAuth error: "@ + err@),
        query.error is None && query.state is None ==> (r matches Err(AppError::BadRequest(m))
            && m@ == "Missing OAuth state parameter"@),
        query.error is None && query.state is Some && query.code is None ==> (r matches Err(
            AppError::BadRequest(m),
        ) && m@ == "Missing OAuth authorization code"@),
        (query.error is None && query.state is Some && query.code is Some) ==> r
            == Ok::<(String, String), AppError>((query.state->0, query.code->0)),
{
    if let Some(err) = query.error {
        return Err(AppError::BadRequest(concat("Google OAuth error: ", err.as_str())));
    }
    let state = match query.state {
        Some(s) => s,
        None => return Err(AppError::BadRequest("Missing OAuth state parameter".to_string())),
    };
    let code = match query.code {
        Some(c) => c,
        None => return Err(AppError::BadRequest("Missing OAuth authorization code".to_string())),
    };
    Ok((state, code))
}

/// An OAuth state that was not issued, or was already used, is refused.
pub fn ensure_oauth_state(valid: bool) -> (r: Result<(), AppError>)
    ensures
        valid <==> r is Ok,
        r matches Err(e) ==> e matches AppError::BadRequest(m)
            && m@ == "Invalid or expired OAuth state parameter"@,
{
    if !valid {
        return Err(AppError::BadRequest("Invalid or expired OAuth state parameter".to_string()));
    }
    Ok(())
}

/// The profile fields a Google sign-in refreshes on an existing account:
/// names Google does not give are kept.
pub fn oauth_profile_update(info: &GoogleUserInfo, existing: &Users) -> (u: UpdateOAuthProfile)
    ensures
        u.first_name == match info.given_name { Some(n) => n, None => existing.first_name },
        u.last_name == match info.family_name { Some(n) => n, None => existing.last_name },
        u.avatar_url == info.picture,
        u.google_id == Some(info.sub),
{
    let first_name = match &info.given_name {
        Some(n) => n.clone(),
        None => existing.first_name.clone(),
    };
    let last_name = match &info.family_name {
        Some(n) => n.clone(),
        None => existing.last_name.clone(),
    };
    UpdateOAuthProfile {
        first_name,
        last_name,
        avatar_url: info.picture.clone(),
        google_id: Some(info.sub.clone()),
    }
}

/// The part of an email address before its first `@`.
pub open spec fn email_prefix(email: Seq<char>) -> Seq<char> {
    crate::cookies::split_on(email, '@')[0]
}

/// The username proposed for a new Google account before it is cut to length:
/// the email's local part, an underscore and a fresh UUID in simple form.
pub open spec fn raw_username(email: Seq<char>, fresh: u128) -> Seq<char> {
    email_prefix(email) + "_"@ + uuid_simple(fresh)
}

/// Whether the proposed username can be cut at 30 bytes without splitting a
/// character (the cut happens only when it is longer).
pub open spec fn username_cut_ok(email: Seq<char>, fresh: u128) -> bool {
    let raw = raw_username(email, fresh);
    byte_len(raw) <= 30 || vstd::utf8::is_char_boundary(vstd::utf8::encode_utf8(raw), 30)
}

fn raw_username_string(email: &str, fresh: u128) -> (s: String)
    ensures
        s@ == raw_username(email@, fresh),
{
    let chars = chars_of(email);
    let pieces = crate::cookies::split_chars(chars.as_slice(), '@');
    proof {
        crate::cookies::lemma_split_nonempty(email@, '@');
        assert(pieces@.len() == crate::cookies::views(pieces@).len());
        assert(pieces@[0]@ == crate::cookies::views(pieces@)[0]);
    }
    let prefix = string_from_chars(pieces[0].as_slice());
    let with_sep = concat(prefix.as_str(), "_");
    let id = uuid_simple_string(fresh);
    concat(with_sep.as_str(), id.as_str())
}

/// Whether the username for a new Google account can be made from `email`
/// and the fresh UUID `fresh`.
pub fn google_username_ok(email: &str, fresh: u128) -> (b: bool)
    ensures
        b == username_cut_ok(email@, fresh),
{
    let raw = raw_username_string(email, fresh);
    let s = raw.as_str();
    s.len() <= 30 || s.is_char_boundary(30)
}

/// The username for a new Google account: the proposed name, cut to its
/// first 30 bytes.
pub fn google_username(email: &str, fresh: u128) -> (u: String)
    requires
        username_cut_ok(email@, fresh),
    ensures
        vstd::utf8::encode_utf8(u@) == {
            let raw = raw_username(email@, fresh);
            let bytes = vstd::utf8::encode_utf8(raw);
            if byte_len(raw) <= 30 { bytes } else { bytes.subrange(0, 30) }
        },
{
    let raw = raw_username_string(email, fresh);
    let s = raw.as_str();
    if s.len() <= 30 {
        return raw;
    }
    let (head, _tail) = s.split_at(30);
    head.to_string()
}

/// The account created by a first Google sign-in: names default to "User"
/// and an empty last name, and there is no password.
pub fn new_google_user(info: &GoogleUserInfo, fresh: u128) -> (u: NewUser)
    requires
        username_cut_ok(info.email@, fresh),
    ensures
        u.email == info.email,
        u.first_name@ == match info.given_name { Some(n) => n@, None => "User"@ },
        u.last_name@ == match info.family_name { Some(n) => n@, None => ""@ },
        vstd::utf8::encode_utf8(u.username@) == {
            let raw = raw_username(info.email@, fresh);
            let bytes = vstd::utf8::encode_utf8(raw);
            if byte_len(raw) <= 30 { bytes } else { bytes.subrange(0, 30) }
        },
        u.hashed_password@ == ""@,
        u.avatar_url == info.picture,
        u.google_id == Some(info.sub),
        u.auth_provider@ == "google"@,
{
    let first_name = match &info.given_name {
        Some(n) => n.clone(),
        None => "User".to_string(),
    };
    let last_name = match &info.family_name {
        Some(n) => n.clone(),
        None => "".to_string(),
    };
    NewUser {
        email: info.email.clone(),
        username: google_username(info.email.as_str(), fresh),
        last_name,
        first_name,
        hashed_password: "".to_string(),
        avatar_url: info.picture.clone(),
        google_id: Some(info.sub.clone()),
        auth_provider: "google".to_string(),
    }
}

} // verus!
