//! Parsing of command-line values: Base32 secrets, algorithm names, and the
//! decimal digit and step arguments.

use vstd::prelude::*;
use vstd::string::StringSliceAdditionalSpecFns;

use crate::error::{Error, ErrorKind, Result};
use crate::otp::{algo_str, Algo};

verus! {

/// What the Base32 decoder yields for the given input bytes: the decoded
/// bytes, or nothing when the input is not a canonical Base32 string.
pub uninterp spec fn base32_decode_of(s: Seq<u8>) -> Option<Seq<u8>>;

/// Relies on `data_encoding::BASE32.decode`: the outcome is a function of
/// the input bytes alone — the decoded bytes, or an error for input that is
/// not canonical RFC 4648 Base32 with padding.
#[verifier::external_body]
fn base32_decode(secret: &[u8]) -> (r: core::result::Result<Vec<u8>, String>)
    ensures
        r matches Ok(v) ==> base32_decode_of(secret@) == Some(v@),
        r is Err ==> base32_decode_of(secret@) is None,
{
    match data_encoding::BASE32.decode(secret) {
        Ok(v) => Ok(v),
        Err(err) => Err(format!("{}", err)),
    }
}

/// A secret handed over as a Base32 string.
#[derive(Debug, Clone)]
pub struct Base32(pub Vec<u8>);

impl core::str::FromStr for Base32 {
    type Err = &'static str;

    fn from_str(s: &str) -> core::result::Result<Self, Self::Err> {
        match base32_decode(s.as_bytes()) {
            Ok(v) => Ok(Base32(v)),
            Err(_) => Err("invalid BASE32 string"),
        }
    }
}

impl From<Base32> for Vec<u8> {
    fn from(value: Base32) -> (r: Vec<u8>) {
        value.0
    }
}

impl vstd::std_specs::convert::FromSpecImpl<Base32> for Vec<u8> {
    open spec fn obeys_from_spec() -> bool {
        true
    }

    open spec fn from_spec(t: Base32) -> Vec<u8> {
        t.0
    }
}

/// Parses a Base32-encoded secret.
pub fn parse_secret(secret: &[u8]) -> (r: Result<Vec<u8>>)
    ensures
        r is Ok <==> base32_decode_of(secret@) is Some,
        r matches Ok(v) ==> base32_decode_of(secret@) == Some(v@),
        r matches Err(e) ==> e.kind == ErrorKind::InvalidArgument,
{
    match base32_decode(secret) {
        Ok(v) => Ok(v),
        Err(err) => Err(
            Error::new(ErrorKind::InvalidArgument).with_message(
                "key is an invalid base32 value".to_owned(),
            ).with_error(err),
        ),
    }
}

/// Parses a string to a valid [`Algo`].
pub fn parse_algo(algo: &str) -> (r: Result<Algo>)
    ensures
        r is Ok <==> (algo@ == "SHA1"@ || algo@ == "SHA256"@ || algo@ == "SHA512"@),
        r matches Ok(a) ==> algo_str(a) == algo@,
        algo@ == "SHA1"@ ==> (r matches Ok(a) && a == Algo::SHA1),
        algo@ == "SHA256"@ ==> (r matches Ok(a) && a == Algo::SHA256),
        algo@ == "SHA512"@ ==> (r matches Ok(a) && a == Algo::SHA512),
        r matches Err(e) ==> e.kind == ErrorKind::InvalidArgument,
{
    if let Ok(v) = Algo::try_from_str(algo) {
        Ok(v)
    } else {
        Err(
            Error::new(ErrorKind::InvalidArgument).with_message(
                "given value for algo is invalid".to_owned(),
            ),
        )
    }
}

/// All bytes are ASCII decimal digits, and there is at least one.
pub open spec fn all_dec_digits(s: Seq<u8>) -> bool {
    s.len() > 0 && forall|i: int| 0 <= i < s.len() ==> 0x30 <= #[trigger] s[i] <= 0x39
}

/// The number that a big-endian run of ASCII decimal digits denotes.
pub open spec fn dec_value(s: Seq<u8>) -> nat
    decreases s.len(),
{
    if s.len() == 0 {
        0
    } else {
        10 * dec_value(s.drop_last()) + (s.last() - 0x30) as nat
    }
}

/// The digit part of a number string: the input with one leading `'+'` removed.
pub open spec fn digit_part(s: Seq<u8>) -> Seq<u8> {
    if s.len() > 0 && s[0] == 0x2b {
        s.subrange(1, s.len() as int)
    } else {
        s
    }
}

proof fn lemma_dec_value_prefix_ge(q: Seq<u8>, k: int)
    requires
        forall|i: int| 0 <= i < q.len() ==> 0x30 <= #[trigger] q[i] <= 0x39,
        0 <= k <= q.len(),
    ensures
        dec_value(q) >= dec_value(q.subrange(0, k)),
    decreases q.len() - k,
{
    if k < q.len() {
        lemma_dec_value_prefix_ge(q, k + 1);
        let p1 = q.subrange(0, k + 1);
        let p = q.subrange(0, k);
        assert(p1.drop_last() =~= p);
        assert(p1.last() == q[k]);
        assert(dec_value(p1) == 10 * dec_value(p) + (q[k] - 0x30) as nat);
    } else {
        assert(q.subrange(0, k) =~= q);
    }
}

/// Parses the digit part of `s` as an unsigned decimal number, rejecting
/// values above `limit` and any non-digit input.
fn parse_dec(s: &[u8], limit: u64) -> (r: Option<u64>)
    ensures
        r is Some <==> (all_dec_digits(digit_part(s@)) && dec_value(digit_part(s@)) <= limit),
        r matches Some(v) ==> v == dec_value(digit_part(s@)),
{
    let ghost dp = digit_part(s@);
    let mut i: usize = 0;
    if s.len() > 0 && s[0] == 0x2b {
        i = 1;
    }
    let start: usize = i;
    proof {
        assert(dp =~= s@.subrange(start as int, s@.len() as int));
    }
    if i == s.len() {
        return None;
    }
    let mut acc: u64 = 0;
    while i < s.len()
        invariant
            start <= i <= s@.len(),
            s@.len() > start,
            dp == digit_part(s@),
            dp =~= s@.subrange(start as int, s@.len() as int),
            forall|j: int| start <= j < i ==> 0x30 <= #[trigger] s@[j] <= 0x39,
            acc == dec_value(s@.subrange(start as int, i as int)),
            acc <= limit,
        decreases s@.len() - i,
    {
        let b = s[i];
        if b < 0x30 || b > 0x39 {
            proof {
                assert(dp.len() == s@.len() - start);
                assert(dp[i - start] == s@[i as int]);
                if all_dec_digits(dp) {
                    assert(0x30 <= dp[i - start] <= 0x39);
                }
            }
            return None;
        }
        let d = (b - 0x30) as u64;
        let ghost prefix = s@.subrange(start as int, i as int);
        let ghost prefix1 = s@.subrange(start as int, i + 1);
        proof {
            assert(prefix1.drop_last() =~= prefix);
            assert(prefix1.last() == s@[i as int]);
            assert(dec_value(prefix1) == 10 * dec_value(prefix) + (s@[i as int] - 0x30) as nat);
            vstd::arithmetic::div_mod::lemma_fundamental_div_mod(limit as int, 10);
        }
        if acc > limit / 10 || (acc == limit / 10 && d > limit % 10) {
            proof {
                assert(0 <= (limit as int) % 10 < 10) by (nonlinear_arith);
                assert(10 * (acc as int) + d as int > limit);
                if all_dec_digits(dp) {
                    lemma_dec_value_prefix_ge(dp, i + 1 - start);
                    assert(dp.subrange(0, i + 1 - start) =~= prefix1);
                    assert(dec_value(dp) >= dec_value(prefix1));
                }
            }
            return None;
        }
        acc = acc * 10 + d;
        i = i + 1;
    }
    proof {
        assert(s@.subrange(start as int, i as int) =~= dp);
    }
    Some(acc)
}

/// Parses a string to a valid `u32`: optional leading `'+'`, then decimal
/// digits denoting a value that fits.
pub fn parse_digits(digits: &str) -> (r: Result<u32>)
    ensures
        r is Ok <==> (all_dec_digits(digit_part(digits.spec_bytes())) && dec_value(
            digit_part(digits.spec_bytes()),
        ) <= u32::MAX),
        r matches Ok(v) ==> v == dec_value(digit_part(digits.spec_bytes())),
        r matches Err(e) ==> e.kind == ErrorKind::InvalidArgument,
{
    match parse_dec(digits.as_bytes(), 0xffff_ffff) {
        Some(v) => Ok(v as u32),
        None => Err(
            Error::new(ErrorKind::InvalidArgument).with_message(
                "digits is not a valid unsiged integer".to_owned(),
            ),
        ),
    }
}

/// Parses a string to a valid `u64`: optional leading `'+'`, then decimal
/// digits denoting a value that fits.
pub fn parse_step(step: &str) -> (r: Result<u64>)
    ensures
        r is Ok <==> (all_dec_digits(digit_part(step.spec_bytes())) && dec_value(
            digit_part(step.spec_bytes()),
        ) <= u64::MAX),
        r matches Ok(v) ==> v == dec_value(digit_part(step.spec_bytes())),
        r matches Err(e) ==> e.kind == ErrorKind::InvalidArgument,
{
    match parse_dec(step.as_bytes(), 0xffff_ffff_ffff_ffff) {
        Some(v) => Ok(v),
        None => Err(
            Error::new(ErrorKind::InvalidArgument).with_message(
                "step/period is not a valid unsiged integer".to_owned(),
            ),
        ),
    }
}

} // verus!
