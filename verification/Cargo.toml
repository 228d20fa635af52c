[package]
name = "vidarchive"
version = "0.1.0"
edition = "2021"
publish = false
rust-version = "1.95"

[dependencies]
anyhow = "1"
chrono = "=0.4.45"
dotenvy = "0.15"
regex = "=1.13.1"
reqwest = { version = "=0.11.27", default-features = false }
serde = { version = "1", features = ["derive"] }
serde_json = "1"
# Only here for teloxide, which uses it: the releases after this one need a newer
# compiler than the rust-version above.
takecell = "=0.1.1"
teloxide = { version = "=0.13.0", default-features = false, features = ["macros", "ctrlc_handler", "rustls"] }
tokio = { version = "1", features = ["full"] }
tracing = "0.1"
tracing-appender = "0.2"
tracing-subscriber = { version = "0.3", features = ["env-filter"] }
