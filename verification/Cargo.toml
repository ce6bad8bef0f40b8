[package]
name = "vong"
version = "0.1.0"
edition = "2021"
publish = false

[dependencies]
semver = "=1.0.28"
unicode-normalization = "=0.1.26"
uuid = { version = "=1.29.0", features = ["v4"] }
serde = { version = "=1.0.229", features = ["derive"] }
serde_json = "=1.0.154"
directories = "=6.0.0"
earshot = "=1.2.2"
rusqlite = { version = "*", features = ["bundled"] }
rusqlite_migration = "*"
tokio = { version = "1", features = ["rt-multi-thread", "sync", "macros", "time"] }
thiserror = "2"
