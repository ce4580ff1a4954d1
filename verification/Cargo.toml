[package]
name = "agentgateway"
version = "0.1.0"
edition = "2021"
publish = false

[dependencies]
anyhow = "1"
bytes = "1"
core_affinity = "0.8"
fs-err = "3"
futures-core = "0.3"
hashbrown = "*"
http = "1"
http-body = "1"
http-body-util = "0.1"
itertools = "0.14"
prometheus-client = "*"
regex = "1"
serde = { version = "1", features = ["derive"] }
serde_json = "1"
shellexpand = "3"
socket2 = { version = "*", features = ["all"] }
thiserror = "2"
tokio = { version = "1", features = ["sync", "rt", "macros"] }
tokio-stream = "0.1"
tracing = "0.1"
url = "2"
