[package]
name = "block_mining"
version = "0.1.0"
edition = "2021"
publish = false

[dependencies]
rand = "=0.8.8"
anyhow = "=1.0.104"
bytes = "=1.12.1"
chrono = "=0.4.45"
drax = { version = "=0.1.1", default-features = false, features = ["serde", "macros", "uuid", "nbt"] }
fern = "=0.6.2"
log = "=0.4.34"
pin-project-lite = "=0.2.17"
serde = { version = "=1.0.229", features = ["derive"] }
serde_derive = "=1.0.229"
serde_json = "=1.0.154"
tokio = { version = "=1.54.1", features = ["full"] }
tokio-util = { version = "=0.7.20", features = ["io"] }
uuid = { version = "=1.29.0", features = ["serde"] }
