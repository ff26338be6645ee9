[package]
name = "arena_core"
version = "0.1.0"
edition = "2021"
publish = false

[dependencies]
atomic = "0.5"
bincode = "1.3"
bytes = "1"
chrono = "0.4"
fnv = "1"
futures = "0.3"
lazy_static = "1"
rand = { version = "0.8", features = ["small_rng"] }
serde = { version = "1", features = ["derive"] }
smallvec = { version = "1", features = ["serde"] }
static_assertions = "1"
tokio = { version = "1", features = ["full"] }
tokio-tungstenite = "*"
