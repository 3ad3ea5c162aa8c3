[package]
name = "openparlant"
version = "0.1.0"
edition = "2021"
publish = false

[dependencies]
regex-lite = "0.1"
uuid = { version = "1", features = ["v4", "v5"] }
sha2 = "0.10"
serde = { version = "1", features = ["derive"] }
serde_json = "1"
rusqlite = { version = "*", features = ["bundled"] }
sqlx = { version = "0.8", default-features = false, features = ["postgres", "runtime-tokio"] }
tokio = { version = "1", features = ["rt", "rt-multi-thread", "macros"] }
async-trait = "0.1"
anyhow = "1"
chrono = "0.4"
thiserror = "*"
tracing = "0.1"
rmp-serde = "*"
