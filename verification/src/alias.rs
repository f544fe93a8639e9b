//! Custom aliases: which ones a user may choose, and how long a short code is cached.
use vstd::prelude::*;

use crate::error::AppError;
use crate::text::{
    byte_len, chars_eq_str, chars_of, concat, string_from_chars, trim, trim_chars,
};

verus! {

broadcast use vstd::string::group_string_axioms;

/// Fewest bytes a custom alias may have.
pub const MIN_ALIAS_LENGTH: usize = 6;
/// Most bytes a custom alias may have.
pub const MAX_ALIAS_LENGTH: usize = 30;

/// Seconds an automatically generated short code stays in the cache.
pub const AUTO_CODE_TTL_SECONDS: u64 = 90;
/// Seconds a custom alias stays in the cache.
pub const CUSTOM_ALIAS_TTL_SECONDS: u64 = 300;

/// Words that collide with the service's own routes and cannot be aliases,
/// in any letter case.
pub open spec fn reserved_keywords() -> Seq<Seq<char>> {
    seq![
        "api"@, "auth"@, "login"@, "signup"@, "billing"@, "health"@, "404"@,
        "dashboard"@, "settings"@, "public"@, "verify"@, "order"@, "plans"@,
        "webhook"@, "webhooks"@, "admin"@, "subscription"@, "subscriptions"@,
    ]
}

/// The reserved words, in order.
pub fn reserved_keyword_list() -> (v: Vec<&'static str>)
    ensures
        v@.len() == reserved_keywords().len(),
        forall|i: int| 0 <= i < v@.len() ==> #[trigger] v@[i]@ == reserved_keywords()[i],
{
    let v = vec![
        "api", "auth", "login", "signup", "billing", "health", "404",
        "dashboard", "settings", "public", "verify", "order", "plans",
        "webhook", "webhooks", "admin", "subscription", "subscriptions",
    ];
    v
}

/// The characters an alias may be made of: ASCII letters and digits, `-` and `_`.
pub open spec fn is_alias_char(c: char) -> bool {
    ||| ('0' <= c && c <= '9')
    ||| ('a' <= c && c <= 'z')
    ||| ('A' <= c && c <= 'Z')
    ||| c == '-'
    ||| c == '_'
}

/// The lower-case form of an ASCII character; other characters are unchanged.
pub open spec fn ascii_lower(c: char) -> char {
    if 'A' <= c && c <= 'Z' {
        ((c as u32) + 32) as char
    } else {
        c
    }
}

/// The lower-case form of a string of ASCII characters.
pub open spec fn ascii_lower_seq(s: Seq<char>) -> Seq<char> {
    s.map_values(|c: char| ascii_lower(c))
}

/// Whether the UTF-8 encoding of `t` has an allowed alias length.
pub open spec fn alias_length_ok(t: Seq<char>) -> bool {
    MIN_ALIAS_LENGTH <= byte_len(t) <= MAX_ALIAS_LENGTH
}

/// Whether every character of `t` may appear in an alias.
pub open spec fn alias_chars_ok(t: Seq<char>) -> bool {
    forall|i: int| 0 <= i < t.len() ==> #[trigger] is_alias_char(t[i])
}

/// Whether `t`, in lower case, is a reserved word.
pub open spec fn is_reserved(t: Seq<char>) -> bool {
    reserved_keywords().contains(ascii_lower_seq(t))
}

pub open spec fn length_message() -> Seq<char> {
    "Custom alias must be between 6 and 30 characters"@
}

pub open spec fn charset_message() -> Seq<char> {
    "Custom alias can only contain alphanumeric characters, hyphens, and underscores"@
}

pub open spec fn reserved_message(t: Seq<char>) -> Seq<char> {
    "Custom alias '"@ + t + "' is a reserved keyword"@
}

/// Why the trimmed alias `t` is refused, or `None` where it is accepted; the
/// checks are made in this order.
pub open spec fn alias_rejection(t: Seq<char>) -> Option<Seq<char>> {
    if !alias_length_ok(t) {
        Some(length_message())
    } else if !alias_chars_ok(t) {
        Some(charset_message())
    } else if is_reserved(t) {
        Some(reserved_message(t))
    } else {
        None
    }
}

/// The words that name the service's own routes (`api`, `auth`, `login`,
/// `signup`, `billing`, `health`, `404`, `dashboard`, `settings`, `public`,
/// `verify`, `order`, `plans`, `webhook`, `webhooks`, `admin`,
/// `subscription`, `subscriptions`), written in any ASCII letter case, are
/// refused as custom aliases with the reserved-keyword message whenever they
/// have an alias's length and characters.
pub proof fn law_reserved_words_refused(t: Seq<char>)
    requires
        alias_length_ok(t),
        alias_chars_ok(t),
        seq![
            "api"@, "auth"@, "login"@, "signup"@, "billing"@, "health"@, "404"@, "dashboard"@,
            "settings"@, "public"@, "verify"@, "order"@, "plans"@, "webhook"@, "webhooks"@,
            "admin"@, "subscription"@, "subscriptions"@,
        ].contains(ascii_lower_seq(t)),
    ensures
        alias_rejection(t) == Some(reserved_message(t)),
{
    let words: Seq<Seq<char>> = seq![
        "api"@, "auth"@, "login"@, "signup"@, "billing"@, "health"@, "404"@, "dashboard"@,
        "settings"@, "public"@, "verify"@, "order"@, "plans"@, "webhook"@, "webhooks"@,
        "admin"@, "subscription"@, "subscriptions"@,
    ];
    let i = choose|i: int| 0 <= i < words.len() && words[i] == ascii_lower_seq(t);
    assert(reserved_keywords()[i] == words[i]);
    assert(is_reserved(t));
}

/// The lower-case form of `c`, as `char::to_ascii_lowercase` gives it: ASCII
/// capitals become small letters, every other character is unchanged.
pub(crate) fn char_to_ascii_lowercase(c: char) -> (r: char)
    ensures
        r == ascii_lower(c),
{
    if 'A' <= c && c <= 'Z' {
        ((c as u8) + 32) as char
    } else {
        c
    }
}

/// Whether `t` is one of the reserved words.
fn is_reserved_lowered(t: &[char]) -> (r: bool)
    ensures
        r == reserved_keywords().contains(t@),
{
    let list = reserved_keyword_list();
    let mut i: usize = 0;
    while i < list.len()
        invariant
            list@.len() == reserved_keywords().len(),
            forall|k: int| 0 <= k < list@.len() ==> #[trigger] list@[k]@ == reserved_keywords()[k],
            i <= list@.len(),
            forall|k: int| 0 <= k < i ==> reserved_keywords()[k] != t@,
        decreases list@.len() - i,
    {
        if chars_eq_str(t, list[i]) {
            assert(reserved_keywords()[i as int] == t@);
            return true;
        }
        i = i + 1;
    }
    assert forall|x: Seq<char>| reserved_keywords().contains(x) implies x != t@ by {
        let k = choose|k: int| 0 <= k < reserved_keywords().len() && reserved_keywords()[k] == x;
        assert(reserved_keywords()[k] != t@);
    }
    false
}

/// Checks a requested custom alias and returns it without surrounding white
/// space, or the reason it is refused.
pub fn validate_custom_alias(alias: &str) -> (r: Result<String, AppError>)
    ensures
        match r {
            Ok(s) => alias_rejection(trim(alias@)) is None && s@ == trim(alias@),
            Err(e) => alias_rejection(trim(alias@)) matches Some(m)
                && e matches AppError::BadRequest(msg) && msg@ == m,
        },
{
    let chars = chars_of(alias);
    let trimmed_chars = trim_chars(chars.as_slice());
    let trimmed = string_from_chars(trimmed_chars.as_slice());
    let ghost t = trim(alias@);
    let byte_len = trimmed.as_str().len();
    if byte_len < MIN_ALIAS_LENGTH || byte_len > MAX_ALIAS_LENGTH {
        return Err(AppError::BadRequest(
            "Custom alias must be between 6 and 30 characters".to_string(),
        ));
    }
    let mut lower: Vec<char> = Vec::new();
    let mut i: usize = 0;
    while i < trimmed_chars.len()
        invariant
            trimmed_chars@ == t,
            t == trim(alias@),
            alias_length_ok(t),
            i <= t.len(),
            lower@ == ascii_lower_seq(t.take(i as int)),
            forall|k: int| 0 <= k < i ==> #[trigger] is_alias_char(t[k]),
        decreases t.len() - i,
    {
        let c = trimmed_chars[i];
        let ok = ('0' <= c && c <= '9') || ('a' <= c && c <= 'z') || ('A' <= c && c <= 'Z')
            || c == '-' || c == '_';
        if !ok {
            assert(!is_alias_char(t[i as int]));
            return Err(AppError::BadRequest(
                "Custom alias can only contain alphanumeric characters, hyphens, and underscores".to_string(),
            ));
        }
        let lc = char_to_ascii_lowercase(c);
        lower.push(lc);
        assert(ascii_lower_seq(t.take(i + 1)) =~= ascii_lower_seq(t.take(i as int)).push(lc));
        i = i + 1;
    }
    assert(t.take(t.len() as int) =~= t);
    if is_reserved_lowered(lower.as_slice()) {
        let with_alias = concat("Custom alias '", trimmed.as_str());
        let message = concat(with_alias.as_str(), "' is a reserved keyword");
        return Err(AppError::BadRequest(message));
    }
    Ok(trimmed)
}

/// Whether a short code is a custom alias: generated codes are shorter than
/// any alias may be.
pub fn is_custom_alias(short_code: &str) -> (b: bool)
    ensures
        b == (byte_len(short_code@) >= MIN_ALIAS_LENGTH),
{
    short_code.len() >= MIN_ALIAS_LENGTH
}

/// How long, in seconds, the target of a short code stays cached.
pub fn get_cache_ttl_for_code(short_code: &str) -> (ttl: u64)
    ensures
        ttl == if byte_len(short_code@) >= MIN_ALIAS_LENGTH {
            CUSTOM_ALIAS_TTL_SECONDS
        } else {
            AUTO_CODE_TTL_SECONDS
        },
{
    if is_custom_alias(short_code) {
        CUSTOM_ALIAS_TTL_SECONDS
    } else {
        AUTO_CODE_TTL_SECONDS
    }
}

} // verus!
