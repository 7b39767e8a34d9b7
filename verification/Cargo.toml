[package]
name = "kasugai_converter"
version = "0.7.0"
edition = "2021"
publish = false

[dependencies]
axum = "0.8"
opener = "0.7"
reqwest = { version = "0.12", default-features = false, features = ["json", "rustls-tls"] }
serde = { version = "1", features = ["derive"] }
serde_json = "1"
tokio = { version = "1", features = ["full"] }
tower-http = { version = "0.6", features = ["fs"] }
