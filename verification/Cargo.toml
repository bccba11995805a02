[package]
name = "clix"
version = "0.1.0"
edition = "2021"
publish = false

[dependencies]
chrono = "0.4"
directories = "6"
ed25519-dalek = { version = "2", features = ["pkcs8", "alloc"] }
hmac = "0.12"
ksni = "0.3"
nix = { version = "0.30", features = ["fs", "process", "signal", "user"] }
notify-rust = "4"
rustix = { version = "1", features = ["fs", "process"] }
rustls = { version = "0.23", default-features = false, features = ["ring", "std", "tls12", "logging"] }
serde = { version = "1", features = ["derive"] }
serde_json = "1"
sha2 = "0.10"
spake2 = "0.4"
thiserror = "2"
tokio = { version = "1", features = ["full"] }
tokio-rustls = { version = "0.26", default-features = false, features = ["ring", "tls12", "logging"] }

[dev-dependencies]
tempfile = "3"
