[package]
name = "seedwing-enforcer"
version = "0.1.0"
edition = "2021"
publish = false

[dependencies]
anyhow = "1"
cargo-lock = "8"
cargo_metadata = "0.15"
clap = { version = "4", default-features = false, features = ["derive", "std", "help", "usage", "error-context"] }
cyclonedx-bom = "0.4"
log = "0.4"
quick-xml = { version = "0.28", features = ["serialize"] }
ropey = "1"
roxmltree = "0.18"
seedwing-policy-engine = { version = "=0.1.0-alpha.2", default-features = false }
serde = { version = "1", features = ["derive"] }
serde_json = "1"
serde_yaml = "0.9"
thiserror = "1"
tokio = { version = "1", features = ["rt-multi-thread", "macros", "io-std", "sync"] }
tokio-util = { version = "0.7", features = ["rt"] }
tower-lsp = "0.20"
url = { version = "2", features = ["serde"] }
uuid = { version = "1", features = ["v4"] }
walkdir = "2"
which = "4"
