use totp_store::otp::{generate_integer_string, Algo, _hotp, _totp};
use totp_store::types::TotpRecord;

const RFC_SECRET: &[u8] = b"12345678901234567890";

#[test]
fn rfc_hotp_vector_eight_digits() {
    // canonical dynamic-truncation vector: truncated value 1094287082
    assert_eq!(_hotp(RFC_SECRET, 8, 1), "94287082");
}

#[test]
fn rfc_hotp_vector_six_digits() {
    assert_eq!(_hotp(RFC_SECRET, 6, 1), "287082");
    assert_eq!(_hotp(RFC_SECRET, 6, 0), "755224");
    assert_eq!(_hotp(RFC_SECRET, 6, 2), "359152");
}

#[test]
fn leading_zero_padding_preserved() {
    // the full truncated value is 1094287082: ten digits, so a width of
    // twelve must render two leading zeros rather than trim or widen
    assert_eq!(_hotp(RFC_SECRET, 10, 1), "1094287082");
    assert_eq!(_hotp(RFC_SECRET, 12, 1), "001094287082");
}

#[test]
fn generate_integer_string_matches_hotp() {
    let counter_bytes = 1u64.to_be_bytes();
    let code = generate_integer_string(&Algo::SHA1, RFC_SECRET, 8, &counter_bytes);
    assert_eq!(code, "94287082");
}

#[test]
fn totp_uses_time_window() {
    // window 0 covers seconds 0..29, window 1 starts at 30
    let at_0 = _totp(&Algo::SHA1, RFC_SECRET, 6, 30, 0);
    let at_29 = _totp(&Algo::SHA1, RFC_SECRET, 6, 30, 29);
    let at_30 = _totp(&Algo::SHA1, RFC_SECRET, 6, 30, 30);
    assert_eq!(at_0, "755224");
    assert_eq!(at_29, "755224");
    assert_eq!(at_30, "287082");
}

fn rfc_record() -> TotpRecord {
    TotpRecord {
        secret: RFC_SECRET.to_vec(),
        algo: Algo::SHA1,
        digits: 6,
        step: 30,
        issuer: None,
        username: None,
    }
}

#[test]
fn step_window_same_code_and_remaining() {
    let record = rfc_record();
    let (code_a, rem_a) = record.generate_code(3);
    let (code_b, rem_b) = record.generate_code(29);
    assert_eq!(code_a, code_b);
    assert_eq!(rem_a, 27);
    assert_eq!(rem_b, 1);
    assert!(rem_b < rem_a);
}

#[test]
fn step_window_boundary_changes_code() {
    let record = rfc_record();
    let (code_before, rem_before) = record.generate_code(29);
    let (code_after, rem_after) = record.generate_code(30);
    assert_ne!(code_before, code_after);
    assert_eq!(rem_before, 1);
    // the remaining seconds reset to the full step at the boundary
    assert_eq!(rem_after, 30);
}

#[test]
fn sha3_algos_give_distinct_codes() {
    let one = _totp(&Algo::SHA1, RFC_SECRET, 8, 30, 59);
    let two = _totp(&Algo::SHA256, RFC_SECRET, 8, 30, 59);
    let three = _totp(&Algo::SHA512, RFC_SECRET, 8, 30, 59);
    assert_ne!(one, two);
    assert_ne!(two, three);
    assert_ne!(one, three);
    for code in [&one, &two, &three] {
        assert_eq!(code.len(), 8);
        assert!(code.chars().all(|c| c.is_ascii_digit()));
    }
}

#[test]
fn algo_string_round_trip() {
    for (algo, name) in [
        (Algo::SHA1, "SHA1"),
        (Algo::SHA256, "SHA256"),
        (Algo::SHA512, "SHA512"),
    ] {
        assert_eq!(algo.as_str(), name);
        assert_eq!(algo.into_string(), name.to_owned());
        assert_eq!(Algo::try_from_str(name), Ok(algo));
    }
    assert_eq!(Algo::try_from_str("sha1"), Err(()));
    assert_eq!(Algo::try_from_str("MD5"), Err(()));
    assert_eq!(Algo::try_from_str(""), Err(()));
}

#[test]
fn zero_digits_renders_single_zero() {
    // modulo 10^0 leaves zero, rendered as one character; padding to width
    // zero never truncates
    assert_eq!(_hotp(RFC_SECRET, 0, 1), "0");
}

#[test]
fn nineteen_digits_is_the_widest_width() {
    let code = _hotp(RFC_SECRET, 19, 1);
    assert_eq!(code.len(), 19);
    assert!(code.ends_with("1094287082"));
    assert!(code.starts_with("000000000"));
}
