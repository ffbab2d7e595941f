//! A credential store for time-based one-time passwords.
//!
//! The crate covers the two pieces with real contracts: the encrypted-file
//! codec (HKDF key derivation, XChaCha20-Poly1305 sealing with a 24-byte
//! nonce prefix) and the HMAC-based one-time-password computation with
//! RFC 4226 dynamic truncation.

pub mod chacha;
pub mod cli;
pub mod error;
pub mod mac;
pub mod otp;
pub mod time;
pub mod types;
pub mod util;
