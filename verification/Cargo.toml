[package]
name = "codex_tools"
version = "0.1.0"
edition = "2021"
publish = false

[dependencies]
axum = "0.8"
bytes = "1"
chrono = "0.4"
dirs = "*"
futures-util = "0.3"
jsonschema = { version = "*", default-features = false }
reqwest = { version = "0.12", default-features = false, features = ["json", "stream"] }
serde = { version = "1", features = ["derive"] }
serde_json = "1"
sha2 = "0.10"
tokio = { version = "1", features = ["full"] }
toml_edit = "0.22"
tracing = "0.1"
uuid = { version = "1", features = ["v4"] }
