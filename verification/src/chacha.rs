//! Key derivation and authenticated encryption.
//!
//! The key is stretched from a passphrase with HKDF over SHA3-256; data is
//! sealed with XChaCha20-Poly1305 under a fresh 24-byte random nonce. The
//! cipher calls are trusted wrappers whose results are named by
//! uninterpreted spec functions; everything around them is verified.

use vstd::prelude::*;

use chacha20poly1305::aead::Aead;
use chacha20poly1305::{KeyInit, XChaCha20Poly1305};
use hkdf::Hkdf;
use rand::TryRngCore;

use crate::error::{Error, ErrorKind, Result};

verus! {

/// Key length required for the cipher.
pub const KEY_LEN: usize = 32;

/// Nonce length required for the cipher.
pub const NONCE_LEN: usize = 24;

pub type Key = [u8; KEY_LEN];

pub type Nonce = [u8; NONCE_LEN];

/// The 32-byte key that HKDF with SHA3-256, no salt and empty info derives
/// from the given input keying material.
pub uninterp spec fn hkdf_key_of(secret: Seq<u8>) -> Seq<u8>;

/// The ciphertext (with its 16-byte tag appended) that XChaCha20-Poly1305
/// produces for a key, nonce and plaintext, with no associated data.
pub uninterp spec fn xchacha_seal(key: Seq<u8>, nonce: Seq<u8>, plain: Seq<u8>) -> Seq<u8>;

/// What XChaCha20-Poly1305 decryption returns for a key, nonce and
/// ciphertext: the plaintext when the tag verifies, nothing otherwise.
pub uninterp spec fn xchacha_open(key: Seq<u8>, nonce: Seq<u8>, cipher: Seq<u8>) -> Option<
    Seq<u8>,
>;

/// Relies on `hkdf::Hkdf::<sha3::Sha3_256>::expand`: the output is a function
/// of the input keying material alone, and the only failure (an output longer
/// than 255 hash blocks) cannot arise for a fixed 32-byte output.
#[verifier::external_body]
fn hkdf_expand_32(secret: &[u8]) -> (r: Key)
    ensures
        r@ == hkdf_key_of(secret@),
{
    let kdf: Hkdf<sha3::Sha3_256> = Hkdf::new(None, secret);
    let mut output = [0u8; 32];
    let info: [u8; 0] = [];
    kdf.expand(&info, &mut output).expect("a 32-byte output is always valid");
    output
}

/// Creates a valid key from the variable-length secret.
///
/// Uses HKDF with SHA3-256 to derive a key of the length the cipher needs.
/// The same secret always derives the same key; the error leg of the result
/// is kept for interface completeness but never taken.
pub fn make_key(secret: &[u8]) -> (r: Result<Key>)
    ensures
        r is Ok,
        r matches Ok(k) ==> k@ == hkdf_key_of(secret@),
{
    Ok(hkdf_expand_32(secret))
}

/// Relies on `rand::rngs::OsRng::try_fill_bytes`: it fills the buffer from
/// the operating system's entropy source, or reports that source's error.
/// Nothing is promised of the bytes themselves.
#[verifier::external_body]
fn os_random_nonce() -> (r: core::result::Result<Nonce, String>)
    ensures
        r matches Ok(n) ==> n@.len() == NONCE_LEN,
{
    let mut nonce = [0u8; 24];
    match rand::rngs::OsRng.try_fill_bytes(&mut nonce) {
        Ok(()) => Ok(nonce),
        Err(err) => Err(format!("{}", err)),
    }
}

/// Creates a random nonce for the cipher.
///
/// Reads the operating system's entropy source; if that source fails, the
/// failure is reported as a `RandError` and never retried with a weaker one.
pub fn make_nonce() -> (r: Result<Nonce>)
    ensures
        r matches Err(e) ==> e.kind == ErrorKind::RandError,
{
    match os_random_nonce() {
        Ok(nonce) => Ok(nonce),
        Err(err) => Err(Error::new(ErrorKind::RandError).with_error(err)),
    }
}

/// Relies on `chacha20poly1305::XChaCha20Poly1305` through `aead::Aead::encrypt`:
/// the ciphertext is the plaintext's sealing (a function of key, nonce and
/// plaintext), is 16 bytes longer than the plaintext, and decrypting it with
/// the same key and nonce gives the plaintext back; the only failure is a
/// plaintext of at least 64 * (2^32 - 1) bytes, and `new_from_slice` accepts
/// every 32-byte key.
#[verifier::external_body]
fn aead_seal(key: &Key, nonce: &Nonce, data: &[u8]) -> (r: core::result::Result<Vec<u8>, ()>)
    ensures
        r matches Ok(c) ==> c@ == xchacha_seal(key@, nonce@, data@) && c@.len() == data@.len()
            + 16 && xchacha_open(key@, nonce@, c@) == Some(data@),
        data@.len() < 0x3fffffffc0 ==> r is Ok,
{
    let cipher = match XChaCha20Poly1305::new_from_slice(key) {
        Ok(c) => c,
        Err(_) => return Err(()),
    };
    cipher.encrypt(nonce.into(), data).map_err(|_| ())
}

/// Relies on `chacha20poly1305::XChaCha20Poly1305` through `aead::Aead::decrypt`:
/// the outcome is a function of key, nonce and ciphertext; it is the sealed
/// plaintext (16 bytes shorter than the ciphertext) exactly when the
/// authentication tag verifies, and an error otherwise — in particular for
/// any ciphertext shorter than the 16-byte tag.
#[verifier::external_body]
fn aead_open(key: &Key, nonce: &Nonce, data: &[u8]) -> (r: core::result::Result<Vec<u8>, ()>)
    ensures
        r matches Ok(p) ==> xchacha_open(key@, nonce@, data@) == Some(p@) && p@.len() + 16
            == data@.len(),
        r is Err ==> xchacha_open(key@, nonce@, data@) is None,
        data@.len() < 16 ==> r is Err,
{
    let cipher = match XChaCha20Poly1305::new_from_slice(key) {
        Ok(c) => c,
        Err(_) => return Err(()),
    };
    cipher.decrypt(nonce.into(), data).map_err(|_| ())
}

/// Encrypts data with the cipher.
///
/// Seals the data under the given key and nonce; the result carries the
/// authentication tag appended by the scheme. Success is owed for every
/// plaintext of realistic length (below 64 * (2^32 - 1) bytes).
pub fn encrypt_data(key: &Key, nonce: &Nonce, data: &[u8]) -> (r: Result<Vec<u8>>)
    ensures
        r matches Ok(c) ==> c@ == xchacha_seal(key@, nonce@, data@) && c@.len() == data@.len()
            + 16 && xchacha_open(key@, nonce@, c@) == Some(data@),
        r matches Err(e) ==> e.kind == ErrorKind::ChaChaError,
        data@.len() < 0x3fffffffc0 ==> r is Ok,
{
    match aead_seal(key, nonce, data) {
        Ok(c) => Ok(c),
        Err(_) => Err(
            Error::new(ErrorKind::ChaChaError).with_message(
                "failed to encrypt requested data".to_owned(),
            ),
        ),
    }
}

/// Decrypts data with the cipher.
///
/// Opens the sealed data under the given key and nonce: it returns the
/// plaintext exactly when the authentication tag verifies, and an
/// authentication error otherwise — whether the ciphertext was corrupted or
/// the key is wrong is deliberately not distinguished.
pub fn decrypt_data(key: &Key, nonce: &Nonce, data: &[u8]) -> (r: Result<Vec<u8>>)
    ensures
        r matches Ok(p) ==> xchacha_open(key@, nonce@, data@) == Some(p@) && p@.len() + 16
            == data@.len(),
        r is Ok <==> xchacha_open(key@, nonce@, data@) is Some,
        r matches Err(e) ==> e.kind == ErrorKind::ChaChaError,
{
    match aead_open(key, nonce, data) {
        Ok(p) => Ok(p),
        Err(_) => Err(
            Error::new(ErrorKind::ChaChaError).with_message(
                "failed to decrypt requested data".to_owned(),
            ),
        ),
    }
}

/// Key derivation is deterministic: the derived key is a function of the
/// passphrase alone, so two calls with the same passphrase agree — which is
/// what lets a user re-derive the key from memory instead of storing it.
pub proof fn lemma_make_key_deterministic(s1: Seq<u8>, s2: Seq<u8>)
    requires
        s1 == s2,
    ensures
        hkdf_key_of(s1) == hkdf_key_of(s2),
{
}

} // verus!
