[package]
name = "notifiapp-transport"
version = "0.1.0"
edition = "2021"
publish = false

[dependencies]
async-trait = "0.1"
axum = { version = "0.8", default-features = false, features = ["tokio", "http1"] }
dashmap = "6"
futures-util = { version = "0.3", features = ["sink"] }
gloo-net = { version = "0.6", default-features = false, features = ["websocket"] }
gloo-timers = { version = "0.3", features = ["futures"] }
parking_lot = "0.12"
postcard = { version = "1", features = ["use-std"] }
reqwest = { version = "0.12", default-features = false, features = ["json", "stream"] }
serde = { version = "1", features = ["derive"] }
serde_json = "1"
snow = "0.10"
thiserror = "2"
tokio = { version = "1", features = ["rt-multi-thread", "macros", "net", "sync", "time"] }
tokio-stream = "0.1"
tokio-tungstenite = { version = "0.26", default-features = false, features = ["connect", "handshake", "stream"] }
tokio-util = "0.7"
tracing = "0.1"
url = "2"
uuid = { version = "1", features = ["v4"] }
wasm-bindgen-futures = "0.4"
web-time = "1"
