//! Short links: who may create, change or delete them, what a new link
//! records, where a short code leads, how its target is cached, and the QR
//! codes that point at it. Times are microseconds since the Unix epoch.
use vstd::prelude::*;

use md5::{Digest, Md5};
use qrcode::render::svg;
use qrcode::{EcLevel, QrCode};

use crate::alias::{get_cache_ttl_for_code, is_custom_alias, MIN_ALIAS_LENGTH};
use crate::billing::Plan;
use crate::error::AppError;
use crate::ids::{uuid_hyphenated, uuid_hyphenated_string};
use crate::shortcode::{decode, decoded_id, invalid_short_code_message, ShortCodeCipher, RADIX};
use crate::text::{byte_len, chars_eq_str, chars_of, concat, string_from_chars};

verus! {

broadcast use vstd::string::group_string_axioms;

/// Longest target URL accepted, in bytes.
pub const MAX_LONG_URL_LENGTH: usize = 2048;
/// How long a guest's link lives, in microseconds (a day).
pub const GUEST_URL_LIFETIME_MICROS: i64 = 86_400_000_000;

/// A stored link.
pub struct Urls {
    pub long_url: String,
    pub short_code: Option<String>,
    pub created_by: Option<u128>,
    pub guest_id: Option<u128>,
    pub expires_at: Option<i64>,
    pub created_at: i64,
    pub updated_at: i64,
    pub database_id: i32,
}

/// A link to store.
pub struct NewUrl {
    pub long_url: String,
    pub short_code: Option<String>,
    pub created_by: Option<u128>,
    pub guest_id: Option<u128>,
    pub expires_at: Option<i64>,
}

pub struct NewUrlRequest {
    pub long_url: String,
    pub created_by: u128,
    pub custom_alias: Option<String>,
}

pub struct PublicNewUrlRequest {
    pub long_url: String,
}

pub struct UpdateUrl {
    pub long_url: String,
}

pub struct UpdateCode {
    pub short_code: String,
}

pub struct DatabaseId {
    pub database_id: i32,
}

pub struct UpdateUrlRequest {
    pub long_url: String,
    pub short_code: Option<String>,
    pub created_by: u128,
    pub database_id: i32,
}

pub struct QrQueryParams {
    pub url: Option<String>,
    pub fg: Option<String>,
    pub bg: Option<String>,
    pub format: Option<String>,
}

pub open spec fn too_long_message() -> Seq<char> {
    "URL exceeds maximum length of 2048 characters"@
}

/// Target URLs longer than `MAX_LONG_URL_LENGTH` bytes are refused.
pub fn check_long_url(long_url: &str) -> (r: Result<(), AppError>)
    ensures
        byte_len(long_url@) <= MAX_LONG_URL_LENGTH <==> r is Ok,
        r matches Err(e) ==> e matches AppError::BadRequest(m) && m@ == too_long_message(),
{
    if long_url.len() > MAX_LONG_URL_LENGTH {
        return Err(AppError::BadRequest(
            "URL exceeds maximum length of 2048 characters".to_string(),
        ));
    }
    Ok(())
}

/// A signed-in user may create links only for themselves, and only to targets
/// of acceptable length (checked in that order).
pub fn authorize_create(user_id: u128, payload: &NewUrlRequest) -> (r: Result<(), AppError>)
    ensures
        user_id != payload.created_by ==> (r matches Err(AppError::Forbidden(m))
            && m@ == "Cannot create URL for another user"@),
        user_id == payload.created_by && byte_len(payload.long_url@) > MAX_LONG_URL_LENGTH ==> (
        r matches Err(AppError::BadRequest(m)) && m@ == too_long_message()),
        user_id == payload.created_by && byte_len(payload.long_url@) <= MAX_LONG_URL_LENGTH
            ==> r is Ok,
{
    if user_id != payload.created_by {
        return Err(AppError::Forbidden("Cannot create URL for another user".to_string()));
    }
    check_long_url(payload.long_url.as_str())
}

/// A user who already has as many links as the plan allows may not create more.
pub fn check_url_quota(user_url_count: i64, plan: &Plan) -> (r: Result<(), AppError>)
    ensures
        user_url_count < plan.max_urls_limit <==> r is Ok,
        r matches Err(e) ==> e matches AppError::Forbidden(m)
            && m@ == "Plan URL limit reached. Upgrade to create more URLs"@,
{
    if user_url_count >= plan.max_urls_limit as i64 {
        return Err(AppError::Forbidden(
            "Plan URL limit reached. Upgrade to create more URLs".to_string(),
        ));
    }
    Ok(())
}

/// Custom aliases need a plan that allows them.
pub fn check_custom_alias_allowed(plan: &Plan) -> (r: Result<(), AppError>)
    ensures
        plan.custom_alias_allowed <==> r is Ok,
        r matches Err(e) ==> e matches AppError::Forbidden(m)
            && m@ == "Custom aliases are not allowed on your current plan"@,
{
    if !plan.custom_alias_allowed {
        return Err(AppError::Forbidden(
            "Custom aliases are not allowed on your current plan".to_string(),
        ));
    }
    Ok(())
}

/// An alias that is already a short code is refused.
pub fn check_alias_free(exists: bool) -> (r: Result<(), AppError>)
    ensures
        !exists <==> r is Ok,
        r matches Err(e) ==> e matches AppError::BadRequest(m)
            && m@ == "Custom alias is already taken"@,
{
    if exists {
        return Err(AppError::BadRequest("Custom alias is already taken".to_string()));
    }
    Ok(())
}

/// The link a signed-in user creates: theirs, with the alias if one was
/// chosen (otherwise the code is assigned once the row has its id), and
/// without expiry.
pub fn new_user_url(payload: &NewUrlRequest, alias: Option<String>) -> (u: NewUrl)
    ensures
        u.long_url == payload.long_url,
        u.short_code == alias,
        u.created_by == Some(payload.created_by),
        u.guest_id is None,
        u.expires_at is None,
{
    NewUrl {
        long_url: payload.long_url.clone(),
        short_code: alias,
        created_by: Some(payload.created_by),
        guest_id: None,
        expires_at: None,
    }
}

/// When a guest's link created at `now` expires: a day later.
pub fn guest_expiry(now: i64) -> (t: i64)
    requires
        now + GUEST_URL_LIFETIME_MICROS <= i64::MAX,
    ensures
        t == now + GUEST_URL_LIFETIME_MICROS,
{
    now + GUEST_URL_LIFETIME_MICROS
}

/// The link a guest creates: tied to the guest, with no owner and no code
/// yet, and expiring at `expires_at`.
pub fn new_guest_url(long_url: String, guest_id: u128, expires_at: i64) -> (u: NewUrl)
    ensures
        u.long_url == long_url,
        u.short_code is None,
        u.created_by is None,
        u.guest_id == Some(guest_id),
        u.expires_at == Some(expires_at),
{
    NewUrl { long_url, short_code: None, created_by: None, guest_id: Some(guest_id), expires_at: Some(expires_at) }
}

/// The guest a public request acts as: the one its cookie names, or else a
/// new one, who must then be handed the cookie.
pub fn guest_identity(from_cookie: Option<u128>, fresh: u128) -> (r: (u128, bool))
    ensures
        match from_cookie {
            Some(id) => r == (id, false),
            None => r == (fresh, true),
        },
{
    match from_cookie {
        Some(id) => (id, false),
        None => (fresh, true),
    }
}

/// The change that gives a stored link its short code.
pub fn code_update(code: &String) -> (u: UpdateCode)
    ensures
        u.short_code == code,
{
    UpdateCode { short_code: code.clone() }
}

/// A stored link with its newly assigned short code.
pub fn with_short_code(url: Urls, code: String) -> (u: Urls)
    ensures
        u == (Urls { short_code: Some(code), ..url }),
{
    Urls { short_code: Some(code), ..url }
}

/// What is done to a link by someone who must own it.
pub enum UrlAction {
    Update,
    Delete,
}

/// Only the user who created a link may change or delete it.
pub fn ensure_url_owner(created_by: Option<u128>, user_id: u128, action: UrlAction) -> (r: Result<(), AppError>)
    ensures
        created_by == Some(user_id) <==> r is Ok,
        r matches Err(e) ==> e matches AppError::Forbidden(m) && m@ == match action {
            UrlAction::Update => "You are not allowed to update this URL"@,
            UrlAction::Delete => "You are not allowed to delete this URL"@,
        },
{
    match created_by {
        Some(owner) => if owner == user_id {
            return Ok(());
        },
        None => {},
    }
    match action {
        UrlAction::Update => Err(AppError::Forbidden("You are not allowed to update this URL".to_string())),
        UrlAction::Delete => Err(AppError::Forbidden("You are not allowed to delete this URL".to_string())),
    }
}

/// Only the user who created a link may read its clicks.
pub fn ensure_analytics_access(owner: Option<u128>, user_id: u128) -> (r: Result<(), AppError>)
    ensures
        owner == Some(user_id) <==> r is Ok,
        r matches Err(e) ==> e matches AppError::Forbidden(m) && m@ == "Access denied"@,
{
    match owner {
        Some(o) => if o == user_id {
            return Ok(());
        },
        None => {},
    }
    Err(AppError::Forbidden("Access denied".to_string()))
}

/// The change a link update asks for.
pub fn url_update(payload: &UpdateUrlRequest) -> (u: UpdateUrl)
    ensures
        u.long_url == payload.long_url,
{
    UpdateUrl { long_url: payload.long_url.clone() }
}

// ---------------------------------------------------------------------------
// Resolving a short code

/// Where the target of a short code is looked up.
pub enum UrlLookup {
    /// A custom alias is looked up as it is.
    Alias(String),
    /// A generated code is looked up by the id it decodes to.
    DatabaseId(i32),
}

/// Where the target of a short code is looked up: custom aliases by the code,
/// generated codes by the database id they decode to; codes that do not
/// decode are refused.
pub fn resolve_short_code(short_code: &str, ff: &ShortCodeCipher) -> (r: Result<UrlLookup, AppError>)
    requires
        ff@.1 == RADIX,
    ensures
        byte_len(short_code@) >= MIN_ALIAS_LENGTH ==> (r matches Ok(UrlLookup::Alias(a))
            && a@ == short_code@),
        byte_len(short_code@) < MIN_ALIAS_LENGTH ==> match decoded_id(ff@.0, short_code@) {
            None => r matches Err(AppError::BadRequest(m)) && m@ == invalid_short_code_message(),
            Some(id) => r matches Ok(UrlLookup::DatabaseId(d)) && d == id,
        },
{
    if is_custom_alias(short_code) {
        return Ok(UrlLookup::Alias(short_code.to_string()));
    }
    let id = decode(short_code, ff)?;
    Ok(UrlLookup::DatabaseId(id as i32))
}

/// What a read of the cache gave.
pub enum CacheRead {
    /// The cache holds the target.
    Hit(String),
    /// The cache answered, without the target.
    Miss,
    /// The cache could not be read.
    Unavailable,
}

/// The target a cache read settles, if any: only a hit does; on a miss, and
/// when the cache is down, the target is looked up in the database.
pub fn cached_target(read: CacheRead) -> (r: Option<String>)
    ensures
        r == match read {
            CacheRead::Hit(u) => Some(u),
            _ => None::<String>,
        },
{
    match read {
        CacheRead::Hit(u) => Some(u),
        _ => None,
    }
}

/// The cache entry for a short code: its key and how long it is kept.
pub fn cache_entry_for(short_code: &str) -> (r: (String, u64))
    ensures
        r.0@ == "url:"@ + short_code@,
        r.1 == get_cache_ttl_spec(short_code@),
{
    (concat("url:", short_code), get_cache_ttl_for_code(short_code))
}

/// How long the target of a short code stays cached.
pub open spec fn get_cache_ttl_spec(short_code: Seq<char>) -> u64 {
    if byte_len(short_code) >= MIN_ALIAS_LENGTH {
        crate::alias::CUSTOM_ALIAS_TTL_SECONDS
    } else {
        crate::alias::AUTO_CODE_TTL_SECONDS
    }
}

/// The cache key of a short code's target.
pub fn url_cache_key(short_code: &str) -> (k: String)
    ensures
        k@ == "url:"@ + short_code@,
{
    concat("url:", short_code)
}

/// The block-list key of a revoked token id, and the value stored under it.
pub fn blacklist_entry(jti: u128) -> (r: (String, String))
    ensures
        r.0@ == "blacklist:"@ + uuid_hyphenated(jti),
        r.1@ == uuid_hyphenated(jti),
{
    let value = uuid_hyphenated_string(jti);
    (concat("blacklist:", value.as_str()), value)
}

/// Whether the cache acknowledged a write (it answers `OK`).
pub fn cache_write_acknowledged(reply: Option<&str>) -> (b: bool)
    ensures
        b == (reply matches Some(s) && s@ == "OK"@),
{
    match reply {
        Some(s) => {
            let c = chars_of(s);
            chars_eq_str(c.as_slice(), "OK")
        },
        None => false,
    }
}

/// `s` without its trailing slashes.
pub open spec fn trim_end_slashes(s: Seq<char>) -> Seq<char>
    decreases s.len(),
{
    if s.len() > 0 && s.last() == '/' {
        trim_end_slashes(s.drop_last())
    } else {
        s
    }
}

/// Where a visitor is sent when a short code leads nowhere: the front end's
/// `/404` page, or the service's own `/404` when no front end is configured.
pub open spec fn not_found_target(frontend_url: Seq<char>) -> Seq<char> {
    if frontend_url.len() == 0 {
        "/404"@
    } else {
        trim_end_slashes(frontend_url) + "/404"@
    }
}

/// Where a visitor is sent when a short code leads nowhere.
pub fn not_found_redirect(frontend_url: &str) -> (s: String)
    ensures
        s@ == not_found_target(frontend_url@),
{
    let c = chars_of(frontend_url);
    if c.len() == 0 {
        return "/404".to_string();
    }
    let mut end = c.len();
    assert(c@.subrange(0, end as int) =~= c@);
    while end > 0 && c[end - 1] == '/'
        invariant
            end <= c@.len(),
            trim_end_slashes(c@) == trim_end_slashes(c@.subrange(0, end as int)),
        decreases end,
    {
        assert(c@.subrange(0, end as int).drop_last() =~= c@.subrange(0, end - 1));
        end = end - 1;
    }
    let head = crate::text::sub_chars(c.as_slice(), 0, end);
    let s = string_from_chars(head.as_slice());
    concat(s.as_str(), "/404")
}

// ---------------------------------------------------------------------------
// QR codes

/// The default foreground colour of a QR code.
pub open spec fn default_dark() -> Seq<char> {
    "#000000"@
}

/// The default background colour of a QR code.
pub open spec fn default_light() -> Seq<char> {
    "#ffffff"@
}

/// The smallest width and height, in pixels, a QR code is drawn at.
pub const QR_MIN_DIMENSION: u32 = 300;

/// The error-correction levels of a QR code.
#[derive(Clone, Copy, PartialEq, Eq, Structural)]
pub enum QrErrorCorrection {
    Low,
    Medium,
    Quartile,
    High,
}

/// The SVG drawing `qrcode` makes of `content` at the given error correction,
/// with the given colours and smallest dimension, or `None` where the content
/// does not fit in a QR code.
pub uninterp spec fn qr_svg(content: Seq<u8>, level: QrErrorCorrection, dark: Seq<char>, light: Seq<char>, min_dimension: u32) -> Option<Seq<char>>;

/// `QrCode::with_error_correction_level`, then its SVG rendering with the
/// given colours and smallest dimension. An error is the encoder's
/// description of why the content does not fit; that text is not stated.
#[verifier::external_body]
fn render_qr_svg(content: &[u8], level: QrErrorCorrection, dark: &str, light: &str, min_dimension: u32) -> (r: Result<String, String>)
    ensures
        match r {
            Ok(s) => qr_svg(content@, level, dark@, light@, min_dimension) == Some(s@),
            Err(_) => qr_svg(content@, level, dark@, light@, min_dimension) is None,
        },
{
    let ec = match level {
        QrErrorCorrection::Low => EcLevel::L,
        QrErrorCorrection::Medium => EcLevel::M,
        QrErrorCorrection::Quartile => EcLevel::Q,
        QrErrorCorrection::High => EcLevel::H,
    };
    let code = QrCode::with_error_correction_level(content, ec).map_err(|e| e.to_string())?;
    Ok(code.render::<svg::Color>().min_dimensions(min_dimension, min_dimension).dark_color(
        svg::Color(dark),
    ).light_color(svg::Color(light)).build())
}

/// An SVG QR code for `content` at the highest error correction, at least
/// 300 by 300 pixels, in the given colours (black on white by default).
pub fn generate_qr_svg(content: &str, dark_color: Option<&str>, light_color: Option<&str>) -> (r: Result<String, String>)
    ensures
        ({
            let dark = match dark_color { Some(d) => d@, None => default_dark() };
            let light = match light_color { Some(l) => l@, None => default_light() };
            match qr_svg(vstd::utf8::encode_utf8(content@), QrErrorCorrection::High, dark, light, QR_MIN_DIMENSION) {
                Some(svg) => r matches Ok(s) && s@ == svg,
                None => r matches Err(m) && m@.len() >= 28
                    && m@.subrange(0, 28) == "Failed to generate QR code: "@,
            }
        }),
{
    let dark = match dark_color {
        Some(d) => d,
        None => "#000000",
    };
    let light = match light_color {
        Some(l) => l,
        None => "#ffffff",
    };
    match render_qr_svg(content.as_bytes(), QrErrorCorrection::High, dark, light, QR_MIN_DIMENSION) {
        Ok(s) => Ok(s),
        Err(e) => {
            let m = concat("Failed to generate QR code: ", e.as_str());
            proof {
                reveal_strlit("Failed to generate QR code: ");
                assert(m@.subrange(0, 28) =~= "Failed to generate QR code: "@);
            }
            Err(m)
        },
    }
}

/// What a QR code for a short code points at: the requested URL, or else the
/// short link itself on this host (`localhost:8000` when the request names
/// none), over https exactly when the proxy says the request came over https.
pub open spec fn qr_target(url: Option<Seq<char>>, host: Option<Seq<char>>, forwarded_proto: Option<Seq<char>>, short_code: Seq<char>) -> Seq<char> {
    match url {
        Some(u) => u,
        None => {
            let h = match host { Some(h) => h, None => "localhost:8000"@ };
            let scheme = if forwarded_proto == Some("https"@) { "https"@ } else { "http"@ };
            scheme + "://"@ + h + "/"@ + short_code
        },
    }
}

/// A QR code made for a short code without a `url` parameter points at that
/// short link on the request's host (`localhost:8000` when none is named): over
/// `https://` exactly when the proxy forwarded the protocol `https`, and over
/// `http://` for every other forwarded protocol, just as when none is
/// forwarded.
pub proof fn law_qr_target_scheme(host: Option<Seq<char>>, proto: Option<Seq<char>>, code: Seq<char>)
    ensures
        ({
            let h = match host {
                Some(h) => h,
                None => "localhost:8000"@,
            };
            let t = qr_target(None, host, proto, code);
            &&& proto == Some("https"@) ==> t == "https://"@ + h + "/"@ + code
            &&& proto != Some("https"@) ==> t == "http://"@ + h + "/"@ + code
        }),
        proto != Some("https"@) ==> qr_target(None, host, proto, code) == qr_target(None, host, None, code),
{
    reveal_strlit("https");
    reveal_strlit("http");
    reveal_strlit("://");
    reveal_strlit("https://");
    reveal_strlit("http://");
    assert("https"@ + "://"@ =~= "https://"@);
    assert("http"@ + "://"@ =~= "http://"@);
    let h = match host {
        Some(h) => h,
        None => "localhost:8000"@,
    };
    assert("https"@ + "://"@ + h + "/"@ + code =~= "https://"@ + h + "/"@ + code);
    assert("http"@ + "://"@ + h + "/"@ + code =~= "http://"@ + h + "/"@ + code);
}

/// What a QR code for a short code points at.
pub fn qr_target_url(url: Option<String>, host: Option<&str>, forwarded_proto: Option<&str>, short_code: &str) -> (t: String)
    ensures
        t@ == qr_target(
            match url { Some(u) => Some(u@), None => None },
            match host { Some(h) => Some(h@), None => None },
            match forwarded_proto { Some(p) => Some(p@), None => None },
            short_code@,
        ),
{
    match url {
        Some(u) => u,
        None => {
            let h = match host {
                Some(h) => h,
                None => "localhost:8000",
            };
            let https = match forwarded_proto {
                Some(p) => {
                    let c = chars_of(p);
                    chars_eq_str(c.as_slice(), "https")
                },
                None => false,
            };
            let scheme = if https {
                "https"
            } else {
                "http"
            };
            let a = concat(scheme, "://");
            let b = concat(a.as_str(), h);
            let c = concat(b.as_str(), "/");
            concat(c.as_str(), short_code)
        },
    }
}

/// The target of a QR code made without a short code: the `url` parameter,
/// which is required.
pub fn generic_qr_target(url: Option<String>) -> (r: Result<String, AppError>)
    ensures
        match url {
            Some(u) => r == Ok::<String, AppError>(u),
            None => r matches Err(AppError::BadRequest(m))
                && m@ == "Query parameter 'url' is required"@,
        },
{
    match url {
        Some(u) => Ok(u),
        None => Err(AppError::BadRequest("Query parameter 'url' is required".to_string())),
    }
}

/// Whether a QR code is answered as JSON (format `json`) rather than as an image.
pub fn wants_json(format: Option<&str>) -> (b: bool)
    ensures
        b == (format matches Some(f) && f@ == "json"@),
{
    match format {
        Some(f) => {
            let c = chars_of(f);
            chars_eq_str(c.as_slice(), "json")
        },
        None => false,
    }
}

// ---------------------------------------------------------------------------
// Content hashes

/// The MD5 digest of `data`.
pub uninterp spec fn md5_digest(data: Seq<u8>) -> Seq<u8>;

/// Lowercase hexadecimal of one byte.
pub open spec fn hex_byte(b: u8) -> Seq<char> {
    seq![crate::ids::hex_digit((b / 16) as nat), crate::ids::hex_digit((b % 16) as nat)]
}

/// Lowercase hexadecimal of a byte string, two digits per byte.
pub open spec fn hex_of(bytes: Seq<u8>) -> Seq<char>
    decreases bytes.len(),
{
    if bytes.len() == 0 {
        Seq::empty()
    } else {
        hex_of(bytes.drop_last()) + hex_byte(bytes.last())
    }
}

/// `Md5::digest`.
#[verifier::external_body]
fn md5_of(data: &[u8]) -> (d: Vec<u8>)
    ensures
        d@ == md5_digest(data@),
        d@.len() == 16,
{
    Md5::digest(data).to_vec()
}

/// The lowercase hexadecimal digit of `d < 16`.
fn hex_digit_char(d: u8) -> (c: char)
    requires
        d < 16,
    ensures
        c == crate::ids::hex_digit(d as nat),
{
    if d < 10 {
        (d + 48) as char
    } else {
        (d + 87) as char
    }
}

/// Two lowercase hexadecimal digits per byte, as `hex::encode` writes them.
fn hex_encode(data: &[u8]) -> (s: String)
    ensures
        s@ == hex_of(data@),
{
    let mut out: Vec<char> = Vec::new();
    let mut i: usize = 0;
    while i < data.len()
        invariant
            i <= data@.len(),
            out@ == hex_of(data@.take(i as int)),
        decreases data@.len() - i,
    {
        let b = data[i];
        out.push(hex_digit_char(b / 16));
        out.push(hex_digit_char(b % 16));
        proof {
            assert(data@.take(i + 1).drop_last() =~= data@.take(i as int));
            assert(data@.take(i + 1).last() == b);
        }
        i = i + 1;
    }
    assert(data@.take(data@.len() as int) =~= data@);
    string_from_chars(out.as_slice())
}

/// The hexadecimal MD5 digest of a target URL followed by a user id.
pub fn genrate(long_url: String, user_id: String) -> (h: String)
    ensures
        h@ == hex_of(md5_digest(vstd::utf8::encode_utf8(long_url@ + user_id@))),
        h@.len() == 32,
{
    let data = concat(long_url.as_str(), user_id.as_str());
    let digest = md5_of(data.as_str().as_bytes());
    proof {
        lemma_hex_len(digest@);
    }
    hex_encode(digest.as_slice())
}

pub proof fn lemma_hex_len(bytes: Seq<u8>)
    ensures
        hex_of(bytes).len() == 2 * bytes.len(),
    decreases bytes.len(),
{
    if bytes.len() > 0 {
        lemma_hex_len(bytes.drop_last());
    }
}

} // verus!
