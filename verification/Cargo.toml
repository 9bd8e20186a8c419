[package]
name = "remotefs"
version = "0.1.0"
edition = "2021"
publish = false

[dependencies]
anyhow = "=1.0.104"
clap = { version = "=4.6.7", features = ["derive"] }
env_logger = "=0.11.11"
fuser = { version = "=0.18.0", default-features = false }
indexmap = "=2.14.2"
jsonwebtoken = "=9.3.1"
libc = "=0.2.191"
log = "=0.4.35"
lru = "=0.19.0"
rayon = "=1.12.0"
reqwest = { version = "=0.12.28", default-features = false, features = ["blocking", "json", "rustls-tls"] }
serde = { version = "=1.0.229", features = ["derive"] }
serde_json = { version = "=1.0.154", features = ["raw_value"] }
ssh2 = "=0.9.6"
ureq = { version = "=2.12.1", features = ["json"] }
url = "=2.5.8"
xxhash-rust = { version = "=0.8.19", features = ["xxh64"] }
