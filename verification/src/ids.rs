//! Identifiers: UUIDs are held as the 128-bit number they stand for, and
//! written and read through the `uuid` crate, whose text formats are stated here.
use vstd::prelude::*;

use uuid::Uuid;

verus! {

/// The lowercase hexadecimal digit for `d < 16`.
pub open spec fn hex_digit(d: nat) -> char {
    if d < 10 {
        (d + 48) as char
    } else {
        (d + 87) as char
    }
}

/// The last `n` hexadecimal digits of `v`, most significant first, zero-padded.
pub open spec fn hex_digits(v: nat, n: nat) -> Seq<char>
    decreases n,
{
    if n == 0 {
        Seq::empty()
    } else {
        hex_digits(v / 16, (n - 1) as nat).push(hex_digit(v % 16))
    }
}

/// The 32 lowercase hexadecimal digits of a UUID (its "simple" form).
pub open spec fn uuid_simple(id: u128) -> Seq<char> {
    hex_digits(id as nat, 32)
}

/// The hyphenated form of a UUID: its digits grouped 8-4-4-4-12.
pub open spec fn uuid_hyphenated(id: u128) -> Seq<char> {
    let h = uuid_simple(id);
    h.subrange(0, 8) + seq!['-'] + h.subrange(8, 12) + seq!['-'] + h.subrange(12, 16) + seq!['-']
        + h.subrange(16, 20) + seq!['-'] + h.subrange(20, 32)
}

/// Whether `c` is a lowercase hexadecimal digit or a hyphen.
pub open spec fn is_uuid_char(c: char) -> bool {
    ('0' <= c && c <= '9') || ('a' <= c && c <= 'f') || c == '-'
}

pub proof fn lemma_hex_digits_chars(v: nat, n: nat)
    ensures
        hex_digits(v, n).len() == n,
        forall|i: int| 0 <= i < n ==> #[trigger] is_uuid_char(hex_digits(v, n)[i]),
    decreases n,
{
    if n > 0 {
        lemma_hex_digits_chars(v / 16, (n - 1) as nat);
        let d = hex_digits(v, n);
        let p = hex_digits(v / 16, (n - 1) as nat);
        assert forall|i: int| 0 <= i < n implies #[trigger] is_uuid_char(d[i]) by {
            if i < n - 1 {
                assert(d[i] == p[i]);
            }
        }
    }
}

/// The hyphenated form of a UUID has 36 characters, each a lowercase
/// hexadecimal digit or a hyphen.
pub proof fn lemma_uuid_hyphenated_chars(id: u128)
    ensures
        uuid_hyphenated(id).len() == 36,
        forall|i: int| 0 <= i < 36 ==> #[trigger] is_uuid_char(uuid_hyphenated(id)[i]),
{
    let h = uuid_simple(id);
    lemma_hex_digits_chars(id as nat, 32);
    let u = uuid_hyphenated(id);
    assert forall|i: int| 0 <= i < 36 implies #[trigger] is_uuid_char(u[i]) by {
        if i < 8 {
            assert(u[i] == h[i]);
        } else if i == 8 || i == 13 || i == 18 || i == 23 {
        } else if i < 13 {
            assert(u[i] == h[i - 1]);
        } else if i < 18 {
            assert(u[i] == h[i - 2]);
        } else if i < 23 {
            assert(u[i] == h[i - 3]);
        } else {
            assert(u[i] == h[i - 4]);
        }
    }
}

/// A hexadecimal digit, in either case.
pub open spec fn is_hex_char(c: char) -> bool {
    ||| ('0' <= c && c <= '9')
    ||| ('a' <= c && c <= 'f')
    ||| ('A' <= c && c <= 'F')
}

/// The value of the hexadecimal digit `c`.
pub open spec fn hex_char_value(c: char) -> nat {
    if c <= '9' {
        (c as int - 48) as nat
    } else if c <= 'F' {
        (c as int - 55) as nat
    } else {
        (c as int - 87) as nat
    }
}

/// Whether every character of `s` is a hexadecimal digit.
pub open spec fn all_hex(s: Seq<char>) -> bool {
    forall|i: int| 0 <= i < s.len() ==> #[trigger] is_hex_char(s[i])
}

/// The number the hexadecimal digits `s` write, most significant first.
pub open spec fn hex_text_value(s: Seq<char>) -> nat
    decreases s.len(),
{
    if s.len() == 0 {
        0
    } else {
        hex_text_value(s.drop_last()) * 16 + hex_char_value(s.last())
    }
}

/// The 32 digits of a hyphenated UUID text, without its hyphens.
pub open spec fn hyphen_groups(s: Seq<char>) -> Seq<char> {
    s.subrange(0, 8) + s.subrange(9, 13) + s.subrange(14, 18) + s.subrange(19, 23) + s.subrange(24, 36)
}

/// Whether `s` is 32 hexadecimal digits grouped 8-4-4-4-12 by hyphens.
pub open spec fn hyphenated_text(s: Seq<char>) -> bool {
    &&& s.len() == 36
    &&& s[8] == '-' && s[13] == '-' && s[18] == '-' && s[23] == '-'
    &&& all_hex(hyphen_groups(s))
}

/// Whether `p` is `urn:uuid:` in any letter case.
pub open spec fn urn_prefix(p: Seq<char>) -> bool {
    &&& p.len() == 9
    &&& crate::alias::ascii_lower(p[0]) == 'u' && crate::alias::ascii_lower(p[1]) == 'r'
    &&& crate::alias::ascii_lower(p[2]) == 'n' && p[3] == ':'
    &&& crate::alias::ascii_lower(p[4]) == 'u' && crate::alias::ascii_lower(p[5]) == 'u'
    &&& crate::alias::ascii_lower(p[6]) == 'i' && crate::alias::ascii_lower(p[7]) == 'd'
    &&& p[8] == ':'
}

/// The UUID in a hyphenated text, if it is one.
pub open spec fn hyphenated_uuid(s: Seq<char>) -> Option<u128> {
    if hyphenated_text(s) {
        Some(hex_text_value(hyphen_groups(s)) as u128)
    } else {
        None
    }
}

/// What `Uuid::parse_str` makes of a text: 32 hexadecimal digits; or the
/// hyphenated form, bare, in braces, or after `urn:uuid:` (in any case);
/// digits in either case. Any other text is no UUID.
pub open spec fn uuid_parsed(s: Seq<char>) -> Option<u128> {
    if s.len() == 32 {
        if all_hex(s) {
            Some(hex_text_value(s) as u128)
        } else {
            None
        }
    } else if s.len() == 36 {
        hyphenated_uuid(s)
    } else if s.len() == 38 && s[0] == '{' && s[37] == '}' {
        hyphenated_uuid(s.subrange(1, 37))
    } else if s.len() == 45 && urn_prefix(s.subrange(0, 9)) {
        hyphenated_uuid(s.subrange(9, 45))
    } else {
        None
    }
}

/// `16` to the power `n`.
pub open spec fn pow16(n: nat) -> nat
    decreases n,
{
    if n == 0 {
        1
    } else {
        16 * pow16((n - 1) as nat)
    }
}

proof fn lemma_pow16_positive(n: nat)
    ensures
        pow16(n) > 0,
    decreases n,
{
    if n > 0 {
        lemma_pow16_positive((n - 1) as nat);
    }
}

/// The digits `hex_digits` writes are hexadecimal and read back as the number
/// modulo `16` to the power of their count.
pub proof fn lemma_hex_digits_value(v: nat, n: nat)
    ensures
        hex_digits(v, n).len() == n,
        all_hex(hex_digits(v, n)),
        hex_text_value(hex_digits(v, n)) == v % pow16(n),
    decreases n,
{
    if n == 0 {
        assert(hex_digits(v, n) =~= Seq::<char>::empty());
    } else {
        let m = (n - 1) as nat;
        lemma_hex_digits_value(v / 16, m);
        lemma_pow16_positive(m);
        let d = hex_digits(v, n);
        let p = hex_digits(v / 16, m);
        assert(d.drop_last() =~= p);
        assert(d.last() == hex_digit(v % 16));
        assert(hex_char_value(hex_digit(v % 16)) == v % 16);
        assert forall|i: int| 0 <= i < d.len() implies #[trigger] is_hex_char(d[i]) by {
            if i < m {
                assert(d[i] == p[i]);
            }
        }
        vstd::arithmetic::div_mod::lemma_mod_breakdown(v as int, 16, pow16(m) as int);
        assert(16 * ((v / 16) % pow16(m)) == ((v / 16) % pow16(m)) * 16);
    }
}

/// `Uuid::parse_str` reads the hyphenated form of a UUID back as that UUID.
pub proof fn lemma_uuid_round_trip(id: u128)
    ensures
        uuid_parsed(uuid_hyphenated(id)) == Some(id),
{
    let h = uuid_simple(id);
    let u = uuid_hyphenated(id);
    lemma_hex_digits_value(id as nat, 32);
    assert(u.len() == 36);
    assert(hyphen_groups(u) =~= h);
    assert(pow16(32) == 0x1_0000_0000_0000_0000_0000_0000_0000_0000) by {
        reveal_with_fuel(pow16, 33);
    }
    vstd::arithmetic::div_mod::lemma_small_mod(id as nat, pow16(32));
}

/// `Uuid::parse_str`, taken as the UUID's number: exactly `uuid_parsed`.
#[verifier::external_body]
pub(crate) fn parse_uuid(s: &str) -> (r: Option<u128>)
    ensures
        r == uuid_parsed(s@),
{
    Uuid::parse_str(s).ok().map(|u| u.as_u128())
}

/// The simple form of a UUID (`Uuid::simple`, written with `to_string`).
#[verifier::external_body]
pub(crate) fn uuid_simple_string(id: u128) -> (s: String)
    ensures
        s@ == uuid_simple(id),
{
    Uuid::from_u128(id).simple().to_string()
}

/// The hyphenated form of a UUID (`Uuid::hyphenated`, written with `to_string`).
#[verifier::external_body]
pub(crate) fn uuid_hyphenated_string(id: u128) -> (s: String)
    ensures
        s@ == uuid_hyphenated(id),
{
    Uuid::from_u128(id).hyphenated().to_string()
}

/// `Uuid::new_v4`: a random UUID.
#[verifier::external_body]
pub(crate) fn new_uuid_v4() -> (id: u128) {
    Uuid::new_v4().as_u128()
}

} // verus!
