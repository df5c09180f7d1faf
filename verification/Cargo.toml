[package]
name = "rsqlite-rsync"
version = "0.1.0"
edition = "2021"
publish = false

[dependencies]
async-trait = "0.1"
bincode = { version = "2", features = ["serde"] }
blake3 = "1"
chrono = "0.4"
clap = { version = "4", features = ["derive", "env"] }
comfy-table = "*"
deadpool = "*"
futures = "0.3"
libsqlite3-sys = { version = "*", features = ["bundled"] }
r2d2 = "*"
rayon = "1"
rustyline = "*"
serde = { version = "1", features = ["derive"] }
serde_json = "1"
serde_yaml = "0.9"
sha2 = "0.10"
thiserror = "2"
tokio = { version = "1", features = ["full"] }
tokio-stream = "0.1"
toml = "*"
tonic = "0.14"
tracing = "0.1"
tracing-subscriber = { version = "0.3", features = ["env-filter"] }
