[package]
name = "dictation"
version = "0.1.0"
edition = "2021"
publish = false

[dependencies]
uuid = { version = "1", features = ["v4"] }
sha2 = "0.10"
tokio-util = "0.7"
tokio = { version = "1", features = ["sync", "time", "rt", "macros"] }
serde = { version = "1", features = ["derive"] }
serde_json = "1"
anyhow = "1"
thiserror = "1"
log = "0.4"
rtrb = "0.3"
earshot = "*"
zeroize = { version = "1", features = ["derive"] }
hex = "0.4"
