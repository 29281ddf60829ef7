[package]
name = "veil"
version = "0.1.0"
edition = "2021"
publish = false

[dependencies]
age = "=0.11.5"
anyhow = "=1.0.104"
bip0039 = { version = "=0.14.0", default-features = false, features = ["std", "rand"] }
bls12_381 = "=0.8.0"
fs2 = "=0.4.3"
incrementalmerkletree = "=0.8.2"
jubjub = "=0.10.0"
orchard = "=0.15.5"
prost = "=0.14.4"
rand = "=0.8.8"
rusqlite = "=0.37.0"
sapling-crypto = "=0.7.0"
schemerz = "=0.2.0"
schemerz-rusqlite = "=0.370.0"
secrecy = "=0.8.0"
serde = { version = "=1.0.229", features = ["derive"] }
serde_json = "=1.0.154"
tokio = { version = "1", features = ["macros", "rt-multi-thread", "sync", "time"] }
toml = "=0.5.11"
tracing = "=0.1.44"
uuid = { version = "=1.29.0", features = ["v4"] }
zakura-chain = "=5.0.0"
zcash_client_backend = "=0.24.0"
zcash_client_sqlite = "=0.22.0"
zcash_keys = "=0.16.1"
zcash_primitives = "=0.30.1"
zcash_protocol = { version = "=0.10.6", features = ["local-consensus"] }
zeroize = "=1.9.1"
zip32 = "=0.2.1"
zip321 = "=0.9.0"
