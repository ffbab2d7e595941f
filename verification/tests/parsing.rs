use std::str::FromStr;

use totp_store::cli::{parse_algo, parse_digits, parse_secret, parse_step, Base32};
use totp_store::error::{invalid_argument, name_not_found, Error, ErrorKind};
use totp_store::otp::Algo;
use totp_store::util::{longest_value, pad_key, total_chars, unix_epoch_sec_now};

#[test]
fn parse_digits_accepts_decimal() {
    assert_eq!(parse_digits("8").unwrap(), 8);
    assert_eq!(parse_digits("+8").unwrap(), 8);
    assert_eq!(parse_digits("0").unwrap(), 0);
    assert_eq!(parse_digits("4294967295").unwrap(), u32::MAX);
}

#[test]
fn parse_digits_rejects_bad_input() {
    for bad in ["", "+", "abc", "1a", "-1", " 8", "4294967296"] {
        let err = parse_digits(bad).unwrap_err();
        assert_eq!(err.kind, ErrorKind::InvalidArgument);
    }
}

#[test]
fn parse_step_accepts_decimal() {
    assert_eq!(parse_step("30").unwrap(), 30);
    assert_eq!(parse_step("+45").unwrap(), 45);
    assert_eq!(parse_step("18446744073709551615").unwrap(), u64::MAX);
}

#[test]
fn parse_step_rejects_bad_input() {
    for bad in ["", "thirty", "3.5", "18446744073709551616"] {
        let err = parse_step(bad).unwrap_err();
        assert_eq!(err.kind, ErrorKind::InvalidArgument);
    }
}

#[test]
fn parse_secret_decodes_base32() {
    assert_eq!(parse_secret(b"NBSWY3DP").unwrap(), b"hello".to_vec());
    let err = parse_secret(b"1").unwrap_err();
    assert_eq!(err.kind, ErrorKind::InvalidArgument);
}

#[test]
fn base32_from_str() {
    let parsed = Base32::from_str("NBSWY3DP").unwrap();
    assert_eq!(parsed.0, b"hello".to_vec());
    assert!(Base32::from_str("not base32!").is_err());
}

#[test]
fn parse_algo_accepts_known_names() {
    assert_eq!(parse_algo("SHA1").unwrap(), Algo::SHA1);
    assert_eq!(parse_algo("SHA256").unwrap(), Algo::SHA256);
    assert_eq!(parse_algo("SHA512").unwrap(), Algo::SHA512);
    let err = parse_algo("SHA-1").unwrap_err();
    assert_eq!(err.kind, ErrorKind::InvalidArgument);
}

#[test]
fn error_builders_quote_their_argument() {
    let err = invalid_argument("--frob".to_owned());
    assert_eq!(err.kind, ErrorKind::InvalidArgument);
    assert_eq!(err.message.as_deref(), Some("given invalid argument. \"--frob\""));
    assert!(err.source.is_none());

    let err = name_not_found("gitlab".to_owned());
    assert_eq!(err.kind, ErrorKind::InvalidArgument);
    assert_eq!(
        err.message.as_deref(),
        Some("given name does not exist in file. \"gitlab\"")
    );
}

#[test]
fn error_with_message_and_cause() {
    let err = Error::new(ErrorKind::IoError)
        .with_message("could not read file".to_owned())
        .with_error("permission denied".to_owned());
    assert_eq!(err.kind, ErrorKind::IoError);
    assert_eq!(err.message.as_deref(), Some("could not read file"));
    assert_eq!(err.source.as_deref(), Some("permission denied"));
    assert_eq!(err.kind.as_str(), "IoError");
    assert_eq!(ErrorKind::FormatError.as_str(), "FormatError");
    assert_eq!(ErrorKind::ChaChaError.as_str(), "ChaChaError");
}

#[test]
fn total_chars_counts_characters() {
    assert_eq!(total_chars(&"".to_owned()), 0);
    assert_eq!(total_chars(&"hello".to_owned()), 5);
}

#[test]
fn longest_value_finds_maximum() {
    let values = vec!["a".to_owned(), "abcd".to_owned(), "ab".to_owned()];
    assert_eq!(longest_value(&values, None), 4);
    assert_eq!(longest_value(&values, Some(2)), 4);
    assert_eq!(longest_value(&values, Some(10)), 10);
    assert_eq!(longest_value(&Vec::<String>::new(), None), 0);
}

#[test]
fn pad_key_formats_with_space_and_dashes() {
    assert_eq!(pad_key("INFO", &8), "INFO ---");
    assert_eq!(pad_key("ab", &3), "ab ");
    assert_eq!(pad_key("ab", &2), "ab");
}

#[test]
fn clock_reads_after_epoch() {
    let now = unix_epoch_sec_now().expect("system clock before the UNIX epoch");
    // any sane test machine is past 2020
    assert!(now > 1_577_836_800);
}

#[test]
fn base32_into_vec() {
    let parsed = Base32::from_str("NBSWY3DP").unwrap();
    let bytes: Vec<u8> = parsed.into();
    assert_eq!(bytes, b"hello".to_vec());
}
