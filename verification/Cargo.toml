[package]
name = "tauri_plugin_topcoat"
version = "0.1.0"
edition = "2021"
publish = false

[dependencies]
bytes = "1"
flate2 = "1"
http = "1"
http-body-util = "0.1"
mime = "0.3"
serde = { version = "1", features = ["derive"] }
serde_json = "1"
topcoat = { version = "0.5", default-features = false, features = ["router", "session"] }
tower = { version = "0.5", features = ["util"] }
tower-http = { version = "0.6", features = ["follow-redirect"] }
tower-layer = "0.3"
tower-service = "0.3"
tracing = "0.1"
url = "2"
