[package]
name = "ri"
version = "0.1.0"
edition = "2021"
publish = false

[dependencies]
uuid = { version = "1", features = ["v4"] }
dashmap = "6"
chrono = "0.4"
jni = "0.21"
tokio = { version = "1", features = ["full"] }
tonic = "0.12"
http = "1"
futures = "0.3"
async-trait = "0.1"
tracing = "0.1"
serde_json = "1"
rand = "0.8"
thiserror = "2"
lazy_static = "1"
