[package]
name = "rfeign"
version = "0.1.0"
edition = "2021"
publish = false

[dependencies]
http = "=1.5.0"
base64 = "=0.22.1"
bytes = "=1.12.1"
serde = { version = "=1.0.229", features = ["derive"] }
serde_json = "=1.0.154"
serde_urlencoded = "=0.7.1"
erased-serde = "=0.4.11"
async-trait = "=0.1.92"
tokio = { version = "=1.54.1", features = ["sync", "time", "rt", "macros"] }
thiserror = "=2.0.21"
futures-core = "=0.3.34"
futures-util = "=0.3.34"
reqwest = { version = "=0.12.28", default-features = false }
syn = { version = "=2.0.119", features = ["full", "extra-traits"] }
quote = "=1.0.47"
proc-macro2 = "=1.0.107"
darling = "=0.20.11"
recloser = "=1.4.0"
rs-consul = "=0.15.0"
nacos-sdk = { version = "=0.8.3", default-features = false, features = ["naming", "auth-by-http"] }
