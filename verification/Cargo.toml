[package]
name = "mcpg-plugin-backend-http"
version = "0.1.0"
edition = "2021"
publish = false

[dependencies]
async-trait = "0.1"
chrono = "0.4"
futures = "0.3"
reqwest = { version = "0.12", default-features = false, features = ["json", "stream"] }
serde = { version = "1", features = ["derive"] }
serde_json = "1"
serde_json_path = "0.7"
tokio = { version = "1", features = ["rt-multi-thread", "sync", "macros", "time"] }
tokio-util = "0.7"
tracing = "0.1"
url = "2"
