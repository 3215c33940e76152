[package]
name = "nexus_launcher"
version = "0.1.0"
edition = "2021"
publish = false

[dependencies]
regex = "1"
sha1 = "0.10"
sha2 = "0.10"
hex = "0.4"
aes-gcm = "0.10"
machine-uid = "0.5"
home = "0.5"
clap = { version = "4", features = ["derive"] }
tokio = { version = "1", features = ["full"] }
reqwest = { version = "0.12", default-features = false, features = ["json", "stream", "rustls-tls"] }
serde = { version = "1", features = ["derive"] }
serde_json = "1"
toml = "0.8"
tracing = "0.1"
tracing-subscriber = { version = "0.3", features = ["env-filter"] }
futures-util = "0.3"
indicatif = "0.17"
flate2 = "1"
tar = "0.4"
zip = { version = "2", default-features = false, features = ["deflate"] }
