[package]
name = "webhangin"
version = "0.1.0"
edition = "2021"
publish = false

[dependencies]
uuid = { version = "=1.27.0", features = ["v4"] }
base64 = "=0.23.1"
serde = { version = "=1.0.229", features = ["derive"] }
serde_json = "=1.0.151"
tokio = { version = "=1.53.2", features = ["sync", "time", "rt-multi-thread", "macros"] }
actix = "=0.13.5"
actix-web = "=4.15.0"
actix-web-actors = "=4.3.1"
rheomesh = "=0.8.1"
webrtc = "=0.17.2"
webrtc-ice = "=0.17.2"
