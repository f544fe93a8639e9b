//! Short codes: a database id is enciphered with FF1 (AES-256) into another
//! number of the same range, shifted into the four-digit base62 range, and
//! written in base62. Decoding reverses each step, so every id below
//! `RL` has exactly one four-character code.
use vstd::prelude::*;

use aes::Aes256;
use fpe::ff1::{FlexibleNumeralString, FF1};

use crate::error::AppError;
use crate::alias::MIN_ALIAS_LENGTH;
use crate::text::{byte_len, concat, decimal, u64_to_decimal};

verus! {

/// An FF1 cipher over AES-256, as the `fpe` crate implements it. Verus
/// refuses a declaration of the generic `FF1` (its parameter is bound by an
/// outside trait), so the value is held in this opaque struct.
#[verifier::external_body]
pub struct Ff1Aes256 {
    inner: FF1<Aes256>,
}

/// The radix in which ids are enciphered.
pub const RADIX: u32 = 3812;
/// The number of radix digits an id is written with before enciphering.
pub const LENGTH: usize = 2;
/// One more than the largest id that has a short code: `RADIX` to the power `LENGTH`.
pub const RL: u32 = RADIX * RADIX;
/// The smallest number with four base62 digits.
pub const LOWER_BOUND: u32 = 62 * 62 * 62;
/// The largest number with four base62 digits.
pub const UPPER_BOUND: u32 = 62 * 62 * 62 * 62 - 1;
/// How many numbers have four base62 digits.
pub const RANGE_SIZE: u32 = UPPER_BOUND - LOWER_BOUND + 1;

// ---------------------------------------------------------------------------
// Digits in radix RADIX

/// The number written by the big-endian digits `d` in radix `RADIX`.
pub open spec fn digits_value(d: Seq<u16>) -> nat
    decreases d.len(),
{
    if d.len() == 0 {
        0
    } else {
        digits_value(d.drop_last()) * (RADIX as nat) + (d.last() as nat)
    }
}

/// The last `len` big-endian digits of `v` in radix `RADIX`, that is `v`
/// modulo `RADIX` to the power `len`, padded with zeros.
pub open spec fn digits_of(v: nat, len: nat) -> Seq<u16>
    decreases len,
{
    if len == 0 {
        Seq::empty()
    } else {
        digits_of(v / (RADIX as nat), (len - 1) as nat).push((v % (RADIX as nat)) as u16)
    }
}

/// Whether every digit of `d` is below `radix`.
pub open spec fn digits_in_radix(d: Seq<u16>, radix: u32) -> bool {
    forall|i: int| 0 <= i < d.len() ==> #[trigger] d[i] < radix
}

pub proof fn lemma_digits_of_shape(v: nat, len: nat)
    ensures
        digits_of(v, len).len() == len,
        digits_in_radix(digits_of(v, len), RADIX),
    decreases len,
{
    if len > 0 {
        lemma_digits_of_shape(v / (RADIX as nat), (len - 1) as nat);
        let d = digits_of(v, len);
        assert forall|i: int| 0 <= i < d.len() implies #[trigger] d[i] < RADIX by {
            if i < len - 1 {
                assert(d[i] == digits_of(v / (RADIX as nat), (len - 1) as nat)[i]);
            }
        }
    }
}

/// Two digits hold a number modulo `RADIX * RADIX`.
pub proof fn lemma_two_digits_value(v: nat)
    ensures
        digits_value(digits_of(v, 2)) == v % (RL as nat),
{
    reveal_with_fuel(digits_of, 3);
    reveal_with_fuel(digits_value, 3);
    let r = RADIX as nat;
    let d = digits_of(v, 2);
    let d1 = digits_of(v / r, 1);
    assert(d1 =~= seq![((v / r) % r) as u16]);
    assert(d =~= seq![((v / r) % r) as u16, (v % r) as u16]);
    assert(d.drop_last() =~= d1);
    assert(d1.drop_last() =~= Seq::<u16>::empty());
    assert(digits_value(d1) == (v / r) % r);
    assert(digits_value(d) == ((v / r) % r) * r + v % r);
    vstd::arithmetic::div_mod::lemma_mod_breakdown(v as int, r as int, r as int);
    assert(r * ((v / r) % r) == ((v / r) % r) * r) by (nonlinear_arith);
}

/// Two digits below `RADIX` are the two digits of the number they write.
pub proof fn lemma_two_digits_roundtrip(d: Seq<u16>)
    requires
        d.len() == 2,
        digits_in_radix(d, RADIX),
    ensures
        digits_of(digits_value(d), 2) == d,
        digits_value(d) < RL,
{
    reveal_with_fuel(digits_of, 3);
    reveal_with_fuel(digits_value, 3);
    let r = RADIX as int;
    let hi = d[0] as int;
    let lo = d[1] as int;
    assert(d[0] < RADIX && d[1] < RADIX);
    assert(d.drop_last().drop_last() =~= Seq::<u16>::empty());
    assert(d.drop_last().last() == d[0]);
    let v = digits_value(d) as int;
    assert(v == hi * r + lo);
    vstd::arithmetic::div_mod::lemma_fundamental_div_mod_converse(v, r, hi, lo);
    vstd::arithmetic::div_mod::lemma_fundamental_div_mod_converse(hi, r, 0, hi);
    let e = digits_of(digits_value(d), 2);
    assert(digits_of(digits_value(d) / RADIX as nat, 1) =~= seq![((digits_value(d) / RADIX as nat) % RADIX as nat) as u16]);
    assert(e =~= d);
}

/// The value of a prefix is at most the value of the whole.
pub proof fn lemma_prefix_value_le(d: Seq<u16>, i: int)
    requires
        0 <= i <= d.len(),
    ensures
        digits_value(d.take(i)) <= digits_value(d),
    decreases d.len() - i,
{
    if i < d.len() {
        lemma_prefix_value_le(d, i + 1);
        assert(d.take(i + 1).drop_last() =~= d.take(i));
    } else {
        assert(d.take(i) =~= d);
    }
}

/// The last `length_var` digits of `val` in radix `RADIX`, most significant first.
pub fn integer_to_digits(val: u32, length_var: usize) -> (digits: Vec<u16>)
    ensures
        digits@ == digits_of(val as nat, length_var as nat),
    decreases length_var,
{
    if length_var == 0 {
        Vec::new()
    } else {
        let mut digits = integer_to_digits(val / RADIX, length_var - 1);
        digits.push((val % RADIX) as u16);
        digits
    }
}

/// The number written by big-endian digits in radix `RADIX`.
pub fn digits_to_integer(digits: Vec<u16>) -> (val: u32)
    requires
        digits_value(digits@) <= u32::MAX,
    ensures
        val == digits_value(digits@),
{
    let mut val: u32 = 0;
    let mut i: usize = 0;
    while i < digits.len()
        invariant
            i <= digits@.len(),
            digits_value(digits@) <= u32::MAX,
            val == digits_value(digits@.take(i as int)),
        decreases digits@.len() - i,
    {
        proof {
            lemma_prefix_value_le(digits@, i + 1);
            assert(digits@.take(i + 1).drop_last() =~= digits@.take(i as int));
        }
        val = val * RADIX + digits[i] as u32;
        i = i + 1;
    }
    assert(digits@.take(digits@.len() as int) =~= digits@);
    val
}

// ---------------------------------------------------------------------------
// The FF1 cipher

/// FF1 encryption (NIST SP 800-38G) with AES-256 under `key`, in radix
/// `radix`, with tweak `tweak`, of the numeral string `digits`.
pub uninterp spec fn ff1_encrypt(key: Seq<u8>, radix: u32, tweak: Seq<u8>, digits: Seq<u16>) -> Seq<u16>;

/// FF1 decryption with AES-256 under `key`, in radix `radix`, with tweak
/// `tweak`, of the numeral string `digits`.
pub uninterp spec fn ff1_decrypt(key: Seq<u8>, radix: u32, tweak: Seq<u8>, digits: Seq<u16>) -> Seq<u16>;

/// Whether FF1 in `radix` accepts a numeral string of `len` digits: the
/// string may be of any length from 2 up when `radix * radix` reaches a million.
pub open spec fn ff1_accepts_length(radix: u32, len: nat) -> bool {
    &&& 2 <= len <= u32::MAX
    &&& radix * radix >= 1_000_000
}

/// An FF1 cipher over AES-256, together with the key and radix it was made with.
pub struct ShortCodeCipher {
    ff: Ff1Aes256,
    key: Ghost<Seq<u8>>,
    radix: u32,
}

impl View for ShortCodeCipher {
    type V = (Seq<u8>, u32);

    closed spec fn view(&self) -> (Seq<u8>, u32) {
        (self.key@, self.radix)
    }
}

/// `FF1::<Aes256>::new`: an AES-256 FF1 cipher with the given key and radix.
/// The key must have 32 bytes (the source panics on another length); the call
/// fails only for a radix outside `2..=65536`.
#[verifier::external_body]
fn ff1_new(key: &[u8], radix: u32) -> (ff: Option<Ff1Aes256>)
    requires
        key@.len() == 32,
    ensures
        ff is Some <==> 2 <= radix <= 65536,
{
    FF1::<Aes256>::new(key, radix).ok().map(|inner| Ff1Aes256 { inner })
}

impl ShortCodeCipher {
    /// A cipher for the given 32-byte key and radix.
    pub fn new(key: &[u8], radix: u32) -> (c: ShortCodeCipher)
        requires
            key@.len() == 32,
            2 <= radix <= 65536,
        ensures
            c@ == (key@, radix),
    {
        let ff = ff1_new(key, radix).unwrap();
        ShortCodeCipher { ff, key: Ghost(key@), radix }
    }

    /// The key this cipher was made with.
    pub closed spec fn key(&self) -> Seq<u8> {
        self.key@
    }

    /// The radix this cipher works in.
    pub fn radix(&self) -> (r: u32)
        ensures
            r == self@.1,
    {
        self.radix
    }

    /// `FF1::encrypt` on a numeral string. It fails exactly on a digit that is
    /// not below the radix, or on a length FF1 does not accept (stated here for
    /// the radices whose square reaches a million). The result has the length of
    /// the input, its digits are below the radix, and decrypting it gives the
    /// input back, as FF1 is a permutation of the numeral strings of each length.
    #[verifier::external_body]
    fn encrypt_digits(&self, tweak: &[u8], digits: Vec<u16>) -> (r: Option<Vec<u16>>)
        ensures
            r is Some ==> digits_in_radix(digits@, self@.1),
            digits_in_radix(digits@, self@.1) && ff1_accepts_length(self@.1, digits@.len())
                ==> r is Some,
            r matches Some(c) ==> c@ == ff1_encrypt(self@.0, self@.1, tweak@, digits@),
            r matches Some(c) ==> c@.len() == digits@.len() && digits_in_radix(c@, self@.1),
            r matches Some(c) ==> ff1_decrypt(self@.0, self@.1, tweak@, c@) == digits@,
    {
        self.ff.inner.encrypt(tweak, &FlexibleNumeralString::from(digits)).ok().map(|ns| ns.into())
    }

    /// `FF1::decrypt` on a numeral string. It fails exactly where encryption
    /// would; the result has the length of the input, its digits are below the
    /// radix, and encrypting it gives the input back.
    #[verifier::external_body]
    fn decrypt_digits(&self, tweak: &[u8], digits: Vec<u16>) -> (r: Option<Vec<u16>>)
        ensures
            r is Some ==> digits_in_radix(digits@, self@.1),
            digits_in_radix(digits@, self@.1) && ff1_accepts_length(self@.1, digits@.len())
                ==> r is Some,
            r matches Some(p) ==> p@ == ff1_decrypt(self@.0, self@.1, tweak@, digits@),
            r matches Some(p) ==> p@.len() == digits@.len() && digits_in_radix(p@, self@.1),
            r matches Some(p) ==> ff1_encrypt(self@.0, self@.1, tweak@, p@) == digits@,
    {
        self.ff.inner.decrypt(tweak, &FlexibleNumeralString::from(digits)).ok().map(|ns| ns.into())
    }
}

// ---------------------------------------------------------------------------
// Base62

/// The base62 digit for `d < 62`: `0-9`, then `A-Z`, then `a-z`.
pub open spec fn b62_digit(d: nat) -> char {
    if d < 10 {
        (d + 48) as char
    } else if d < 36 {
        (d + 55) as char
    } else {
        (d + 61) as char
    }
}

/// Whether `c` is a base62 digit.
pub open spec fn is_b62_char(c: char) -> bool {
    ||| ('0' <= c && c <= '9')
    ||| ('A' <= c && c <= 'Z')
    ||| ('a' <= c && c <= 'z')
}

/// The value of the base62 digit `c`.
pub open spec fn b62_char_value(c: char) -> nat {
    if c <= '9' {
        (c as int - 48) as nat
    } else if c <= 'Z' {
        (c as int - 55) as nat
    } else {
        (c as int - 61) as nat
    }
}

/// Whether every character of `s` is a base62 digit.
pub open spec fn all_b62(s: Seq<char>) -> bool {
    forall|i: int| 0 <= i < s.len() ==> #[trigger] is_b62_char(s[i])
}

/// The number written by the base62 digits `s`, most significant first.
pub open spec fn b62_value(s: Seq<char>) -> nat
    decreases s.len(),
{
    if s.len() == 0 {
        0
    } else {
        b62_value(s.drop_last()) * 62 + b62_char_value(s.last())
    }
}

/// The base62 notation of `n`, without leading zeros (`"0"` for zero).
pub open spec fn b62_encode(n: nat) -> Seq<char>
    decreases n,
{
    if n < 62 {
        seq![b62_digit(n)]
    } else {
        b62_encode(n / 62).push(b62_digit(n % 62))
    }
}

/// `base62::encode`: the base62 notation of `n` in the standard alphabet.
#[verifier::external_body]
fn base62_encode(n: u128) -> (s: String)
    ensures
        s@ == b62_encode(n as nat),
{
    base62::encode(n)
}

/// `base62::decode`: succeeds exactly on a nonempty string of base62 digits
/// (standard alphabet) whose value fits in a `u128`, and returns that value.
#[verifier::external_body]
fn base62_decode(s: &str) -> (r: Option<u128>)
    ensures
        r is Some <==> (s@.len() > 0 && all_b62(s@) && b62_value(s@) <= u128::MAX),
        r matches Some(v) ==> v == b62_value(s@),
{
    base62::decode(s).ok()
}

pub proof fn lemma_b62_digit(d: nat)
    requires
        d < 62,
    ensures
        is_b62_char(b62_digit(d)),
        b62_char_value(b62_digit(d)) == d,
{
}

/// Reading back the base62 notation of `n` gives `n`.
pub proof fn lemma_b62_roundtrip(n: nat)
    ensures
        all_b62(b62_encode(n)),
        b62_value(b62_encode(n)) == n,
        b62_encode(n).len() > 0,
    decreases n,
{
    reveal_with_fuel(b62_value, 2);
    if n < 62 {
        lemma_b62_digit(n);
        assert(b62_encode(n).drop_last() =~= Seq::<char>::empty());
    } else {
        lemma_b62_roundtrip(n / 62);
        lemma_b62_digit(n % 62);
        let s = b62_encode(n);
        assert(s.drop_last() == b62_encode(n / 62));
        assert(s.last() == b62_digit(n % 62));
        assert(b62_value(s) == b62_value(b62_encode(n / 62)) * 62 + b62_char_value(b62_digit(n % 62)));
        vstd::arithmetic::div_mod::lemma_fundamental_div_mod(n as int, 62);
        assert forall|i: int| 0 <= i < s.len() implies #[trigger] is_b62_char(s[i]) by {
            if i < s.len() - 1 {
                assert(s[i] == b62_encode(n / 62)[i]);
            }
        }
    }
}

/// Numbers from `62^3` to `62^4 - 1` have four base62 digits.
pub proof fn lemma_b62_four_digits(n: nat)
    requires
        LOWER_BOUND <= n <= UPPER_BOUND,
    ensures
        b62_encode(n).len() == 4,
{
    reveal_with_fuel(b62_encode, 5);
    assert(n / 62 >= 62);
    assert(n / 62 / 62 >= 62);
    assert(n / 62 / 62 / 62 < 62);
}

// ---------------------------------------------------------------------------
// Obfuscation and short codes

/// The enciphered, shifted form of `id`.
pub open spec fn obfuscated(key: Seq<u8>, id: nat) -> nat {
    digits_value(ff1_encrypt(key, RADIX, Seq::empty(), digits_of(id, LENGTH as nat)))
        + (LOWER_BOUND as nat)
}

/// The id whose enciphered, shifted form is `n`, for `n >= LOWER_BOUND`.
pub open spec fn deobfuscated(key: Seq<u8>, n: nat) -> nat {
    digits_value(
        ff1_decrypt(key, RADIX, Seq::empty(), digits_of((n - LOWER_BOUND) as nat, LENGTH as nat)),
    )
}

pub open spec fn invalid_short_code_message() -> Seq<char> {
    "Invalid short code"@
}

pub open spec fn id_limit_message(id: nat) -> Seq<char> {
    "Database ID "@ + decimal(id) + " exceeds maximum limit of "@ + decimal(RL as nat)
        + " for 4-character short codes"@
}

/// Whether `s` is a nonempty base62 numeral whose value fits in a `u128`.
pub open spec fn is_b62_numeral(s: Seq<char>) -> bool {
    s.len() > 0 && all_b62(s) && b62_value(s) <= u128::MAX
}

/// The id a short code stands for, or `None` where the code is refused: it is
/// not a base62 numeral, or its value modulo 2^32 is below `LOWER_BOUND`.
pub open spec fn decoded_id(key: Seq<u8>, s: Seq<char>) -> Option<u32> {
    if !is_b62_numeral(s) {
        None
    } else {
        let n = (b62_value(s) as u128) as u32;
        if n < LOWER_BOUND {
            None
        } else {
            Some(deobfuscated(key, n as nat) as u32)
        }
    }
}

/// Enciphers an id (taken modulo `RL`) and shifts it so that it has four
/// base62 digits.
pub fn obfuscate(database_id: u32, ff: &ShortCodeCipher) -> (n: u32)
    requires
        ff@.1 == RADIX,
    ensures
        n == obfuscated(ff@.0, database_id as nat),
        LOWER_BOUND <= n <= UPPER_BOUND,
        deobfuscated(ff@.0, n as nat) == (database_id as nat) % (RL as nat),
        ff1_round_trips(ff@.0, database_id as nat),
{
    let digits = integer_to_digits(database_id, LENGTH);
    proof {
        lemma_digits_of_shape(database_id as nat, LENGTH as nat);
    }
    let ghost plain = digits@;
    let tweak: [u8; 0] = [];
    assert(tweak@ =~= Seq::<u8>::empty());
    let ct = ff.encrypt_digits(&tweak, digits).unwrap();
    proof {
        lemma_two_digits_roundtrip(ct@);
        lemma_two_digits_value(database_id as nat);
    }
    let encrypted_number = digits_to_integer(ct);
    assert(digits_of((encrypted_number + LOWER_BOUND - LOWER_BOUND) as nat, LENGTH as nat) == ct@);
    encrypted_number + LOWER_BOUND
}

/// Undoes `obfuscate`: numbers below `LOWER_BOUND` are no short code.
pub fn deobfuscate(encrypted_shifted_number: u32, ff: &ShortCodeCipher) -> (r: Result<u32, AppError>)
    requires
        ff@.1 == RADIX,
    ensures
        encrypted_shifted_number < LOWER_BOUND ==> (r matches Err(AppError::BadRequest(m))
            && m@ == invalid_short_code_message()),
        encrypted_shifted_number >= LOWER_BOUND ==> (r matches Ok(id)
            && id == deobfuscated(ff@.0, encrypted_shifted_number as nat) && id < RL),
{
    if encrypted_shifted_number < LOWER_BOUND {
        return Err(AppError::BadRequest("Invalid short code".to_string()));
    }
    let digits = integer_to_digits(encrypted_shifted_number - LOWER_BOUND, LENGTH);
    proof {
        lemma_digits_of_shape((encrypted_shifted_number - LOWER_BOUND) as nat, LENGTH as nat);
    }
    let tweak: [u8; 0] = [];
    assert(tweak@ =~= Seq::<u8>::empty());
    match ff.decrypt_digits(&tweak, digits) {
        Some(pt) => {
            proof {
                lemma_two_digits_roundtrip(pt@);
            }
            Ok(digits_to_integer(pt))
        },
        None => Err(AppError::BadRequest("Failed to decrypt short code".to_string())),
    }
}

/// The short code of a database id: its obfuscated form in base62. Ids from
/// `RL` up have none.
pub fn encode(database_id: u32, ff: &ShortCodeCipher) -> (r: Result<String, AppError>)
    requires
        ff@.1 == RADIX,
    ensures
        database_id >= RL ==> (r matches Err(AppError::Internal(m))
            && m@ == id_limit_message(database_id as nat)),
        database_id < RL ==> (r matches Ok(code)
            && code@ == b62_encode(obfuscated(ff@.0, database_id as nat))
            && code@.len() == 4
            && decoded_id(ff@.0, code@) == Some(database_id)
            && ff1_round_trips(ff@.0, database_id as nat)),
{
    if database_id >= RL {
        let a = concat("Database ID ", u64_to_decimal(database_id as u64).as_str());
        let b = concat(a.as_str(), " exceeds maximum limit of ");
        let c = concat(b.as_str(), u64_to_decimal(RL as u64).as_str());
        let m = concat(c.as_str(), " for 4-character short codes");
        return Err(AppError::Internal(m));
    }
    let obfuscated_shifted_id = obfuscate(database_id, ff);
    proof {
        lemma_b62_four_digits(obfuscated_shifted_id as nat);
        lemma_b62_roundtrip(obfuscated_shifted_id as nat);
        vstd::arithmetic::div_mod::lemma_small_mod(database_id as nat, RL as nat);
    }
    Ok(base62_encode(obfuscated_shifted_id as u128))
}

/// The database id behind a short code. Codes that are not base62, or whose
/// value (taken modulo 2^32) is below `LOWER_BOUND`, are refused.
pub fn decode(short_code: &str, ff: &ShortCodeCipher) -> (r: Result<u32, AppError>)
    requires
        ff@.1 == RADIX,
    ensures
        match decoded_id(ff@.0, short_code@) {
            None => r matches Err(AppError::BadRequest(m)) && m@ == invalid_short_code_message(),
            Some(id) => r == Ok::<u32, AppError>(id),
        },
        r matches Ok(id) ==> id < RL,
{
    match base62_decode(short_code) {
        None => Err(AppError::BadRequest("Invalid short code".to_string())),
        Some(v) => deobfuscate(v as u32, ff),
    }
}

/// Whether FF1 under `key`, in radix `RADIX` with the empty tweak, maps the
/// two digits of `id` to two digits below the radix that decrypt back to them:
/// what `encrypt_digits` guarantees of every call it answers.
pub open spec fn ff1_round_trips(key: Seq<u8>, id: nat) -> bool {
    let d = digits_of(id, LENGTH as nat);
    let c = ff1_encrypt(key, RADIX, Seq::empty(), d);
    &&& c.len() == 2 && digits_in_radix(c, RADIX)
    &&& ff1_decrypt(key, RADIX, Seq::empty(), c) == d
}

/// Undoing the obfuscation of an id below `RL` gives the id back.
pub proof fn lemma_deobfuscate_obfuscate(key: Seq<u8>, id: nat)
    requires
        id < RL,
        ff1_round_trips(key, id),
    ensures
        deobfuscated(key, obfuscated(key, id)) == id,
{
    let d = digits_of(id, LENGTH as nat);
    let c = ff1_encrypt(key, RADIX, Seq::empty(), d);
    lemma_two_digits_roundtrip(c);
    lemma_two_digits_value(id);
    vstd::arithmetic::div_mod::lemma_small_mod(id, RL as nat);
}

/// Decoding the short code of an id below `RL` gives the id back.
pub proof fn law_decode_encode(key: Seq<u8>, id: u32)
    requires
        id < RL,
        ff1_round_trips(key, id as nat),
    ensures
        decoded_id(key, b62_encode(obfuscated(key, id as nat))) == Some(id),
{
    let d = digits_of(id as nat, LENGTH as nat);
    let c = ff1_encrypt(key, RADIX, Seq::empty(), d);
    lemma_two_digits_roundtrip(c);
    let n = obfuscated(key, id as nat);
    assert(LOWER_BOUND <= n <= UPPER_BOUND);
    lemma_b62_roundtrip(n);
    lemma_deobfuscate_obfuscate(key, id as nat);
}

/// A generated short code is never taken for a custom alias: it is shorter
/// than any alias may be, so a lookup decodes it, and it decodes to the id it
/// was made from.
pub proof fn law_generated_code_is_not_alias(key: Seq<u8>, id: u32)
    requires
        id < RL,
        ff1_round_trips(key, id as nat),
    ensures
        byte_len(b62_encode(obfuscated(key, id as nat))) < MIN_ALIAS_LENGTH,
        decoded_id(key, b62_encode(obfuscated(key, id as nat))) == Some(id),
{
    law_decode_encode(key, id);
    let d = digits_of(id as nat, LENGTH as nat);
    lemma_two_digits_roundtrip(ff1_encrypt(key, RADIX, Seq::empty(), d));
    let n = obfuscated(key, id as nat);
    lemma_b62_four_digits(n);
    lemma_b62_roundtrip(n);
    let s = b62_encode(n);
    assert forall|i: int| 0 <= i < s.len() implies '\0' <= #[trigger] s[i] <= '\u{7f}' by {
        assert(is_b62_char(s[i]));
    }
    assert(vstd::utf8::is_ascii_chars(s));
    vstd::utf8::is_ascii_chars_encode_utf8(s);
}

/// Two distinct ids below `RL` get distinct short codes under one key: a code
/// names exactly one id.
pub proof fn law_distinct_ids_distinct_codes(key: Seq<u8>, a: nat, b: nat)
    requires
        a < RL,
        b < RL,
        a != b,
        ff1_round_trips(key, a),
        ff1_round_trips(key, b),
    ensures
        b62_encode(obfuscated(key, a)) != b62_encode(obfuscated(key, b)),
{
    lemma_deobfuscate_obfuscate(key, a);
    lemma_deobfuscate_obfuscate(key, b);
    lemma_b62_roundtrip(obfuscated(key, a));
    lemma_b62_roundtrip(obfuscated(key, b));
}

} // verus!
