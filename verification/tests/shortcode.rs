use logpose::error::AppError;
use logpose::shortcode::{
    decode, deobfuscate, digits_to_integer, encode, integer_to_digits, obfuscate,
    ShortCodeCipher, LOWER_BOUND, RADIX, RL, UPPER_BOUND,
};

fn get_test_ff1() -> ShortCodeCipher {
    let key = b"abcdefghijklmnopqrstuvwxyz123456";
    ShortCodeCipher::new(key, RADIX)
}

#[test]
fn test_obfuscate_inverse() {
    let ff = get_test_ff1();
    let test_id = 123456;
    let obfuscated = obfuscate(test_id, &ff);
    let deobfuscated = deobfuscate(obfuscated, &ff).ok().unwrap();
    assert_eq!(deobfuscated, test_id);
}

#[test]
fn test_encode_and_decode_roundtrip() {
    let ff = get_test_ff1();
    let test_ids = vec![0, 1, 42, 9999, 1400000];

    for &id in &test_ids {
        let code = encode(id, &ff).ok().expect("Failed to encode");
        let decoded_id = decode(&code, &ff).ok().expect("Failed to decode valid short code");
        assert_eq!(decoded_id, id);
    }
}

#[test]
fn test_decode_invalid_characters() {
    let ff = get_test_ff1();
    let invalid_code = "!!!invalid_base62!!!";
    assert!(decode(invalid_code, &ff).is_err());
}

#[test]
fn test_deobfuscate_below_lower_bound() {
    let ff = get_test_ff1();
    let value_below_lower_bound = LOWER_BOUND - 1;
    assert!(deobfuscate(value_below_lower_bound, &ff).is_err());
}

#[test]
fn digits_are_big_endian_in_radix() {
    assert_eq!(integer_to_digits(3812 * 7 + 5, 2), vec![7, 5]);
    assert_eq!(integer_to_digits(RL + 9, 2), vec![0, 9]);
    assert_eq!(integer_to_digits(12, 0), Vec::<u16>::new());
    assert_eq!(digits_to_integer(vec![7, 5]), 3812 * 7 + 5);
    assert_eq!(digits_to_integer(vec![3811, 3811]), RL - 1);
    assert_eq!(digits_to_integer(vec![]), 0);
}

#[test]
fn codes_have_four_characters_and_stay_in_range() {
    let ff = get_test_ff1();
    for id in [0u32, 1, 2, 1000, RL - 1] {
        let n = obfuscate(id, &ff);
        assert!(n >= LOWER_BOUND && n <= UPPER_BOUND);
        let code = encode(id, &ff).ok().unwrap();
        assert_eq!(code.len(), 4);
        assert_eq!(decode(&code, &ff).ok().unwrap(), id);
    }
}

#[test]
fn obfuscation_is_not_the_identity_shift() {
    let ff = get_test_ff1();
    let moved = (0..50u32).filter(|&id| obfuscate(id, &ff) != id + LOWER_BOUND).count();
    assert!(moved > 0);
}

#[test]
fn ids_from_the_limit_have_no_code() {
    let ff = get_test_ff1();
    match encode(RL, &ff) {
        Err(AppError::Internal(m)) => assert_eq!(
            m,
            "Database ID 14531344 exceeds maximum limit of 14531344 for 4-character short codes"
        ),
        _ => panic!("expected an internal error"),
    }
}

#[test]
fn decode_refuses_small_and_empty_codes() {
    let ff = get_test_ff1();
    match decode("Z19", &ff) {
        Err(AppError::BadRequest(m)) => assert_eq!(m, "Invalid short code"),
        _ => panic!("expected a bad request"),
    }
    assert!(decode("", &ff).is_err());
    assert!(decode("ab-c", &ff).is_err());
}

#[test]
fn distinct_ids_get_distinct_codes() {
    let ff = get_test_ff1();
    let mut seen = std::collections::HashSet::new();
    for id in 0..2000u32 {
        let code = encode(id, &ff).ok().unwrap();
        assert!(seen.insert(code), "two ids share a code");
    }
    for id in [RL - 1, RL - 2, RL / 2] {
        let code = encode(id, &ff).ok().unwrap();
        assert!(seen.insert(code));
    }
}

#[test]
fn generated_codes_resolve_by_id() {
    let ff = get_test_ff1();
    for id in [0u32, 1, 77, 123_456, RL - 1] {
        let code = encode(id, &ff).ok().unwrap();
        assert!(!logpose::alias::is_custom_alias(&code));
        match logpose::urls::resolve_short_code(&code, &ff) {
            Ok(logpose::urls::UrlLookup::DatabaseId(d)) => assert_eq!(d as u32, id),
            _ => panic!("a generated code must resolve by its id"),
        }
    }
}
