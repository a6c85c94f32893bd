[package]
name = "avalon_dealer"
version = "0.1.0"
edition = "2021"
publish = false

[dependencies]
rand = "=0.8.8"
chrono = "=0.4.45"
axum = "=0.6.20"
tokio = { version = "=1.54.1", features = ["full"] }
tower-http = { version = "=0.4.4", features = ["cors"] }
serde = { version = "=1.0.229", features = ["derive"] }
serde_json = "=1.0.154"
futures = "=0.3.34"
rust-embed = { version = "=8.13.0", features = ["interpolate-folder-path"] }
once_cell = "=1.21.4"
local-ip-address = "=0.6.13"
jni = "=0.21.1"
