[package]
name = "autodok"
version = "0.1.0"
edition = "2021"
publish = false

[dependencies]
base64 = "0.22"
rand = "0.9"
axum = "0.8"
bollard = { version = "*", features = ["ssl"] }
tokio = { version = "1", features = ["full"] }
tower-http = { version = "0.6", features = ["trace"] }
tracing = "0.1"
tracing-subscriber = "0.3"
serde = { version = "1", features = ["derive"] }
serde_json = "1"
ctrlc = "3"
log = "0.4"
futures-util = "0.3"
lazy_static = "1"
