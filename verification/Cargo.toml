[package]
name = "rustisaur_stdlib"
version = "0.1.0"
edition = "2021"
publish = false

[dependencies]
chrono = "0.4"
dashmap = "5"
dialoguer = "0.11"
futures-util = "0.3"
mlua = { version = "0.9", features = ["lua54", "vendored"] }
notify = "6"
rand = "0.8"
reqwest = { version = "0.11", default-features = false, features = ["blocking"] }
rusqlite = { version = "0.31", features = ["bundled"] }
serde_json = "1"
serde_yaml = "0.9"
thiserror = "1"
tiny_http = "0.12"
tokio = { version = "1", features = ["full"] }
tokio-tungstenite = "0.21"
toml = "0.8"
tracing = "0.1"
