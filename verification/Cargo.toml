[package]
name = "relay_core"
version = "0.1.0"
edition = "2021"
publish = false

[dependencies]
serde_json = { version = "=1.0.151", features = ["float_roundtrip"] }
hashbrown = "=0.17.1"
tokio = { version = "1", features = ["rt-multi-thread", "net", "sync", "macros", "io-util"] }
tokio-tungstenite = "=0.30.0"
tungstenite = "=0.30.0"
futures-util = "=0.3.34"
parking_lot = "=0.12.5"
