[package]
name = "crowdsec-envoy-bouncer"
version = "0.1.0"
edition = "2021"
publish = false

[dependencies]
chrono = { version = "0.4", default-features = false, features = ["std"] }
flexbuffers = "*"
ipnet = { version = "2", features = ["serde"] }
iprange = "0.6"
log = "0.4"
proxy-wasm = "0.2"
rustc-hash = "2"
serde = { version = "1", features = ["derive"] }
serde_json = "1"
serde_yaml = "0.9"
uuid = { version = "1", features = ["v4"] }
