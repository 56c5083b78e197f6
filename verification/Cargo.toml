[package]
name = "nsq-async-rs"
version = "0.1.9"
edition = "2021"
publish = false

[dependencies]
byteorder = "1"
hostname = "0.3"
tokio = { version = "1", features = ["full"] }
async-trait = "0.1"
backoff = { version = "0.4", features = ["tokio"] }
log = "0.4"
rand = "0.8"
reqwest = { version = "0.11", default-features = false, features = ["json"] }
serde = { version = "1", features = ["derive"] }
serde_json = "1"
thiserror = "1"
dashmap = "5"
