[package]
name = "aria_mobile_core"
version = "0.1.0"
edition = "2021"
publish = false

[dependencies]
rtp-engine = { version = "=0.1.0", default-features = false, features = ["g711", "srtp"] }
reqwest = { version = "=0.12.28", default-features = false, features = ["json", "stream", "rustls-tls"] }
hickory-resolver = "=0.24.4"
tokio = { version = "=1.54.1", features = ["rt-multi-thread", "net", "time", "macros", "sync"] }
futures-util = "=0.3.34"
serde = { version = "=1.0.229", features = ["derive"] }
serde_json = "=1.0.154"
thiserror = "=2.0.21"
log = "=0.4.35"
once_cell = "=1.21.4"
rand = "=0.8.8"
uuid = { version = "=1.29.0", features = ["v4"] }
