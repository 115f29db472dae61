[package]
name = "mmo"
version = "0.1.0"
edition = "2021"
publish = false

[dependencies]
sha1 = "0.10"
serde = { version = "1", features = ["derive"] }
serde_json = "1"
toml = "0.8"
tokio = { version = "1", features = ["full"] }
axum = { version = "0.7", features = ["ws"] }
futures-util = "0.3"
postcard = { version = "1", features = ["use-std"] }
eyre = "0.6"
tracing = "0.1"
tracing-subscriber = "0.3"
fastrand = "2"
nalgebra = { version = "0.33", features = ["serde-serialize"] }
