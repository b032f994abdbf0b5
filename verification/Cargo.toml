[package]
name = "onesync"
version = "0.1.0"
edition = "2021"
publish = false

[dependencies]
base64 = "0.22"
sha1 = "0.10"
sha2 = "0.10"
serde_json = "1"
ulid = "1"
unicode-normalization = "0.1"
url = "2"
getrandom = "0.2"
serde = { version = "1", features = ["derive"] }
chrono = { version = "0.4", default-features = false, features = ["clock", "std", "serde"] }
bytes = "1"
futures = "0.3"
async-trait = "0.1"
thiserror = "2"
tokio = { version = "1", features = ["full"] }
reqwest = { version = "0.12", default-features = false, features = ["json", "rustls-tls", "stream"] }

[dev-dependencies]
