[package]
name = "orchestration"
version = "0.1.0"
edition = "2021"
publish = false

[dependencies]
serde = { version = "=1.0.229", features = ["derive"] }
serde_json = "=1.0.154"
serde_yaml_ng = "=0.10.0"
indexmap = { version = "=2.14.2", features = ["serde"] }
thiserror = "=2.0.21"
async-trait = "=0.1.92"
tokio = { version = "=1.54.1", features = ["process", "sync", "time", "macros", "rt-multi-thread"] }
tokio-util = "0.7"
uuid = { version = "=1.29.0", features = ["v4", "serde"] }
chrono = { version = "=0.4.45", features = ["serde"] }
reqwest = { version = "0.12", default-features = false, features = ["json"] }
