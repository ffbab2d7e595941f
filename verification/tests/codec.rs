use std::collections::HashSet;

use totp_store::chacha::{make_key, make_nonce};
use totp_store::error::ErrorKind;
use totp_store::types::TotpFile;

#[test]
fn round_trip_nonempty() {
    let key = make_key(b"correct horse battery staple").unwrap();
    let plain = b"{\"gitlab\":{\"secret\":[1,2,3]}}".to_vec();
    let blob = TotpFile::encrypt(&key, &plain).unwrap();
    assert_eq!(blob.len(), plain.len() + 40);
    // the sealed part must differ from the plaintext it encrypts
    assert_ne!(&blob[24..24 + plain.len()], &plain[..]);
    let out = TotpFile::decrypt(&key, blob).unwrap();
    assert_eq!(out, plain);
}

#[test]
fn round_trip_empty() {
    let key = make_key(b"pw").unwrap();
    let blob = TotpFile::encrypt(&key, b"").unwrap();
    assert_eq!(blob.len(), 40);
    let out = TotpFile::decrypt(&key, blob).unwrap();
    assert_eq!(out, Vec::<u8>::new());
}

#[test]
fn nonce_uniqueness_ten_thousand() {
    let mut seen: HashSet<[u8; 24]> = HashSet::new();
    for _ in 0..10_000 {
        let nonce = make_nonce().unwrap();
        assert!(seen.insert(nonce), "duplicate nonce generated");
    }
    assert_eq!(seen.len(), 10_000);
}

#[test]
fn tamper_detection_every_bit() {
    let key = make_key(b"pw").unwrap();
    let plain = b"attack at dawn".to_vec();
    let blob = TotpFile::encrypt(&key, &plain).unwrap();
    for byte in 0..blob.len() {
        for bit in 0..8 {
            let mut tampered = blob.clone();
            tampered[byte] ^= 1u8 << bit;
            let res = TotpFile::decrypt(&key, tampered);
            match res {
                Ok(_) => panic!("tampered blob decrypted at byte {} bit {}", byte, bit),
                Err(e) => assert_eq!(e.kind, ErrorKind::ChaChaError),
            }
        }
    }
}

#[test]
fn wrong_key_rejection() {
    let k1 = make_key(b"password one").unwrap();
    let k2 = make_key(b"password two").unwrap();
    let blob = TotpFile::encrypt(&k1, b"records").unwrap();
    let res = TotpFile::decrypt(&k2, blob);
    match res {
        Ok(_) => panic!("decryption with the wrong key succeeded"),
        Err(e) => assert_eq!(e.kind, ErrorKind::ChaChaError),
    }
}

#[test]
fn key_derivation_deterministic() {
    let a = make_key(b"pw").unwrap();
    let b = make_key(b"pw").unwrap();
    assert_eq!(a, b);
    let c = make_key(b"pw1").unwrap();
    let d = make_key(b"pw2").unwrap();
    assert_ne!(c, d);
}

#[test]
fn key_derivation_stretches_input() {
    // the derived key is a real HKDF output, not the passphrase padded out
    let mut padded = [0u8; 32];
    padded[..2].copy_from_slice(b"pw");
    let key = make_key(b"pw").unwrap();
    assert_ne!(key, padded);
    assert_ne!(key, [0u8; 32]);
}

#[test]
fn malformed_blob_short_is_format_error() {
    let key = make_key(b"pw").unwrap();
    for len in [0usize, 1, 23] {
        let res = TotpFile::decrypt(&key, vec![0u8; len]);
        match res {
            Ok(_) => panic!("short blob decrypted"),
            Err(e) => assert_eq!(e.kind, ErrorKind::FormatError),
        }
    }
    // at exactly the nonce length the format is fine but authentication fails
    let res = TotpFile::decrypt(&key, vec![0u8; 24]);
    match res {
        Ok(_) => panic!("empty ciphertext decrypted"),
        Err(e) => assert_eq!(e.kind, ErrorKind::ChaChaError),
    }
}
