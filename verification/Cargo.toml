[package]
name = "wtproxy"
version = "0.1.0"
edition = "2021"
publish = false

[dependencies]
anyhow = "1"
bytes = "1"
futures-util = "0.3"
h3 = { version = "*", features = ["i-implement-a-third-party-backend-and-opt-into-breaking-changes"] }
h3-quinn = { version = "*", features = ["datagram"] }
h3-webtransport = "*"
http = "1"
http-body-util = "0.1"
hyper = { version = "1", features = ["full"] }
hyper-util = { version = "0.1", features = ["client", "client-legacy", "http1", "tokio"] }
mimalloc = "0.1"
quinn = "0.11"
rustls = "0.23"
rustls-pemfile = "2"
serde = { version = "1", features = ["derive"] }
socket2 = { version = "0.6", features = ["all"] }
tokio = { version = "1", features = ["full"] }
tokio-rustls = "0.26"
toml = "*"
tracing = "0.1"
tracing-subscriber = { version = "0.3", features = ["env-filter"] }
