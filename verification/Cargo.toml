[package]
name = "fetchly"
version = "0.1.0"
edition = "2021"
publish = false

[dependencies]
url = "=2.5.8"
sha2 = "=0.10.9"
hex = "=0.4.3"
uuid = { version = "=1.29.0", features = ["v4"] }
serde = { version = "=1.0.229", features = ["derive"] }
serde_json = "=1.0.154"
tokio = { version = "=1.54.1", features = ["full"] }
tokio-util = "=0.7.20"
teloxide = { version = "=0.17.0", default-features = false, features = ["macros", "rustls", "ctrlc_handler"] }
dptree = "=0.5.1"
reqwest = { version = "=0.12.28", default-features = false, features = ["rustls-tls"] }
redis = { version = "=0.27.6", features = ["tokio-comp", "connection-manager"] }
rusqlite = { version = "=0.41.1", features = ["bundled"] }
lofty = "=0.25.5"
dotenvy = "=0.15.7"
anyhow = "=1.0.104"
thiserror = "=2.0.21"
tracing = "=0.1.44"
tracing-subscriber = { version = "=0.3.23", features = ["env-filter"] }
# Not used by any source file: teloxide and teloxide-core depend on takecell,
# and its 0.1.2 release needs a newer compiler than the toolchain that builds
# this crate, so this line holds that transitive dependency at 0.1.1.
takecell = "=0.1.1"
