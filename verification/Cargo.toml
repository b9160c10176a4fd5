[package]
name = "gtfs_worker"
version = "0.1.0"
edition = "2021"
publish = false

[dependencies]
chrono = { version = "=0.4.45", default-features = false, features = ["clock", "std"] }
console_error_panic_hook = "=0.1.7"
csv = "=1.4.0"
reqwest = { version = "=0.13.5", default-features = false, features = ["json"] }
serde = { version = "=1.0.229", features = ["derive"] }
serde_json = "=1.0.154"
thiserror = "=2.0.21"
tokio = { version = "=1.54.1", features = ["fs", "io-util", "macros", "rt-multi-thread", "sync", "time"] }
toml = "1.1"
toml_edit = "0.25"
worker = { version = "=0.8.7", features = ["d1"] }
zip = { version = "=8.6.0", default-features = false, features = ["deflate"] }
