//! Keyed hashing: HMAC over one of the three selectable hash primitives.
//!
//! The digests themselves are computed by the `hmac` crate; each one-off
//! function below is a trusted wrapper whose result is named by an
//! uninterpreted spec function, so callers can reason about determinism
//! and digest length without restating the algorithm.

use vstd::prelude::*;

use hmac::Mac;

verus! {

/// The error an HMAC construction could report: the key has a length the
/// primitive rejects. The HMAC construction accepts keys of any length, so
/// in practice this is never returned; it is kept for interface completeness.
#[derive(Debug, Clone, Copy, PartialEq, Eq, Structural)]
pub enum Error {
    InvalidKeyLength,
}

pub type Result<T> = core::result::Result<T, Error>;

/// What HMAC-SHA-1 returns for a given key and message.
pub uninterp spec fn hmac_sha1_of(secret: Seq<u8>, data: Seq<u8>) -> Seq<u8>;

/// What HMAC-SHA3-256 returns for a given key and message.
pub uninterp spec fn hmac_sha3_256_of(secret: Seq<u8>, data: Seq<u8>) -> Seq<u8>;

/// What HMAC-SHA3-512 returns for a given key and message.
pub uninterp spec fn hmac_sha3_512_of(secret: Seq<u8>, data: Seq<u8>) -> Seq<u8>;

/// A one-off HMAC-SHA-1 digest.
///
/// Relies on `hmac::Hmac<sha1::Sha1>`: the digest is a function of key and
/// message alone and is 20 bytes long; `new_from_slice` accepts keys of any
/// length (its body ends in `Ok` on every path), so the call cannot fail.
#[verifier::external_body]
pub fn one_off_sha1(secret: &[u8], data: &[u8]) -> (r: Result<Vec<u8>>)
    ensures
        r is Ok,
        r matches Ok(v) ==> v@ == hmac_sha1_of(secret@, data@) && v@.len() == 20,
{
    match <hmac::Hmac<sha1::Sha1> as Mac>::new_from_slice(secret) {
        Ok(mut mac) => {
            mac.update(data);
            Ok(mac.finalize().into_bytes().to_vec())
        },
        Err(_) => Err(Error::InvalidKeyLength),
    }
}

/// A one-off HMAC-SHA3-256 digest.
///
/// Relies on `hmac::Hmac<sha3::Sha3_256>`: the digest is a function of key
/// and message alone and is 32 bytes long; `new_from_slice` accepts keys of
/// any length, so the call cannot fail.
#[verifier::external_body]
pub fn one_off_sha256(secret: &[u8], data: &[u8]) -> (r: Result<Vec<u8>>)
    ensures
        r is Ok,
        r matches Ok(v) ==> v@ == hmac_sha3_256_of(secret@, data@) && v@.len() == 32,
{
    match <hmac::Hmac<sha3::Sha3_256> as Mac>::new_from_slice(secret) {
        Ok(mut mac) => {
            mac.update(data);
            Ok(mac.finalize().into_bytes().to_vec())
        },
        Err(_) => Err(Error::InvalidKeyLength),
    }
}

/// A one-off HMAC-SHA3-512 digest.
///
/// Relies on `hmac::Hmac<sha3::Sha3_512>`: the digest is a function of key
/// and message alone and is 64 bytes long; `new_from_slice` accepts keys of
/// any length, so the call cannot fail.
#[verifier::external_body]
pub fn one_off_sha512(secret: &[u8], data: &[u8]) -> (r: Result<Vec<u8>>)
    ensures
        r is Ok,
        r matches Ok(v) ==> v@ == hmac_sha3_512_of(secret@, data@) && v@.len() == 64,
{
    match <hmac::Hmac<sha3::Sha3_512> as Mac>::new_from_slice(secret) {
        Ok(mut mac) => {
            mac.update(data);
            Ok(mac.finalize().into_bytes().to_vec())
        },
        Err(_) => Err(Error::InvalidKeyLength),
    }
}

} // verus!
