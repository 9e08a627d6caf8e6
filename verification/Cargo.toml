[package]
name = "memory"
version = "0.1.0"
edition = "2021"
publish = false

[dependencies]
anyhow = "1"
rand = "0.8"
blake3 = "1"
sysinfo = "0.30"
tokio = { version = "1", features = ["rt", "rt-multi-thread", "time", "sync", "macros"] }
serde_json = "1"
async-trait = "0.1"
chrono = "0.4"
