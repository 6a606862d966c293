[package]
name = "armature-tenancy"
version = "0.3.1"
edition = "2021"
publish = false

[dependencies]
async-trait = "=0.1.92"
base64 = "=0.22.1"
chrono = { version = "=0.4.45", features = ["serde"] }
parking_lot = "=0.12.5"
regex = "=1.13.1"
serde = { version = "=1.0.229", features = ["derive"] }
serde_json = "=1.0.154"
thiserror = "=2.0.21"
tokio = { version = "=1.54.1", features = ["sync", "rt", "macros"] }
uuid = { version = "=1.29.0", features = ["v4"] }
