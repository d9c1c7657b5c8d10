[package]
name = "op4-core"
version = "0.1.0"
edition = "2021"
publish = false

[dependencies]
argon2 = "=0.5.3"
bs58 = "=0.5.1"
chacha20poly1305 = "=0.10.1"
crossterm = "=0.29.0"
ed25519-dalek = { version = "=2.2.0", features = ["rand_core"] }
getrandom = "=0.2.17"
hkdf = "=0.12.4"
hmac = "=0.12.1"
hybrid-array = "=0.4.15"
libc = "0.2"
log = "0.4"
ml-dsa = "0.1"
ml-kem = "=0.2.3"
postcard = { version = "=1.1.3", features = ["alloc"] }
qrcode = { version = "=0.14.1", default-features = false }
rand = "=0.8.8"
ratatui = "=0.30.2"
seccompiler = "=0.5.0"
serde = { version = "1", features = ["derive"] }
sha2 = "=0.10.9"
tokio = { version = "1", features = ["full"] }
x25519-dalek = { version = "=2.0.1", features = ["static_secrets"] }
zeroize = "1"
zxcvbn = "=3.1.1"
