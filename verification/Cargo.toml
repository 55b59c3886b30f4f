[package]
name = "sse_core"
version = "0.3.0"
edition = "2021"
publish = false

[dependencies]
bytes = "=1.12.1"
futures-core = "=0.3.34"
memchr = "=2.8.3"
pin-project-lite = "0.2"
reqwest = { version = "=0.12.28", default-features = false, features = ["stream"] }
serde = { version = "=1.0.229", features = ["derive", "rc"] }
thiserror = "=2.0.21"
tokio = { version = "=1.54.1", features = ["time"] }

[dev-dependencies]
http = "=1.5.0"
