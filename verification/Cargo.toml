[package]
name = "totp_store"
version = "0.1.0"
edition = "2021"
publish = false

[dependencies]
chacha20poly1305 = "=0.10.1"
hkdf = "=0.12.4"
hmac = "=0.12.1"
sha1 = "=0.10.7"
sha3 = "=0.10.9"
rand = "=0.9.5"
data-encoding = "2"
serde = { version = "1", features = ["derive"] }
serde_json = "1"
serde_yml = "=0.0.13"
clap = { version = "4", features = ["derive"] }
url = "2"
percent-encoding = "2"
