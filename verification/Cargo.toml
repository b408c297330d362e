[package]
name = "harborbeacon_desktop"
version = "0.1.0"
edition = "2021"
publish = false

[dependencies]
candle-core = "0.9"
candle-nn = "0.9"
clap = { version = "4", features = ["derive", "env"] }
futures-util = "0.3"
prost = "0.13"
reqwest = { version = "0.12", default-features = false, features = ["blocking", "json", "rustls-tls"] }
rusqlite = { version = "0.32", features = ["bundled"] }
serde = { version = "1", features = ["derive"] }
serde_json = "1"
thiserror = "2"
tokio = { version = "1", features = ["macros", "rt-multi-thread", "sync", "time"] }
tokio-tungstenite = { version = "0.26", default-features = false, features = ["connect", "rustls-tls-webpki-roots"] }
tracing = "0.1"
tracing-subscriber = "0.3"

[dev-dependencies]
tempfile = "3"
