[package]
name = "blackboard"
version = "0.1.0"
edition = "2021"
publish = false

[dependencies]
chrono = "=0.4.45"
serde = { version = "=1.0.229", features = ["derive"] }
serde_json = "=1.0.151"
anyhow = "=1.0.104"
reqwest = { version = "=0.12.28", features = ["blocking", "json"] }
parking_lot = "=0.12.5"
async-trait = "=0.1.92"
sha2 = "0.10"
