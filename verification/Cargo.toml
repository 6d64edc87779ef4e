[package]
name = "hypershunt"
version = "0.1.0"
edition = "2021"
publish = false

[dependencies]
anyhow = "1"
arc-swap = "1"
base64 = "0.22"
clap = { version = "4", features = ["derive"] }
h3 = "*"
h3-quinn = "*"
http-body-util = "0.1"
hyper = { version = "1", features = ["full"] }
hyper-util = { version = "0.1", features = ["full"] }
ipnet = "2"
libc = "0.2"
lru = "*"
nix = { version = "0.30", features = ["user", "socket", "fs", "net", "uio"] }
openidconnect = "3"
opentelemetry = "*"
opentelemetry-http = "*"
opentelemetry-otlp = "*"
opentelemetry_sdk = "*"
quinn = { version = "0.11", default-features = false, features = ["runtime-tokio", "rustls-ring"] }
regex = "1"
rustls = { version = "0.23", default-features = false, features = ["ring", "std", "tls12", "logging"] }
serde = { version = "1", features = ["derive"] }
serde_json = "1"
sha2 = "0.10"
tokio = { version = "1", features = ["full"] }
tokio-rustls = { version = "0.26", default-features = false, features = ["ring", "tls12", "logging"] }
tracing = "0.1"
tracing-opentelemetry = "*"
tracing-subscriber = { version = "0.3", features = ["env-filter"] }
