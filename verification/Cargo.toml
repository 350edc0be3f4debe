[package]
name = "yoakore"
version = "0.2.0"
edition = "2021"
publish = false

[dependencies]
serde = { version = "=1.0.229", features = ["derive"] }
serde_json = "=1.0.154"
uuid = { version = "=1.29.0", features = ["v4"] }
getrandom = "=0.4.3"
chrono = { version = "=0.4.45", default-features = false, features = ["clock", "std"] }
tokio = { version = "=1.54.1", features = ["full"] }
async-trait = "=0.1.92"
futures = "=0.3.34"
futures-core = "=0.3.34"
bytes = "=1.12.1"
reqwest = { version = "=0.12.28", default-features = false, features = ["json", "stream"] }
regex = "=1.13.1"
glob = "=0.3.4"
log = "=0.4.35"
thiserror = "=2.0.21"
