[package]
name = "meta_skill"
version = "0.2.1"
edition = "2021"
publish = false

[dependencies]
chrono = "=0.4.45"
fsqlite-error = "=0.1.19"
half = "=2.7.1"
serde = { version = "=1.0.229", features = ["derive"] }
serde_json = "=1.0.154"
sha2 = "=0.10.9"
thiserror = "=2.0.21"
uuid = { version = "=1.29.0", features = ["v4"] }

[dev-dependencies]
tempfile = "=3.27.0"
