[package]
name = "kaku"
version = "0.1.0"
edition = "2021"
publish = false

[dependencies]
anyhow = "1"
axum = { version = "0.8", features = ["ws"] }
chrono = "0.4"
clap = { version = "4", features = ["derive"] }
euclid = "0.22"
fastrand = "2"
futures-util = "0.3"
log = "0.4"
parking_lot = "0.12"
qrcode = { version = "0.14", default-features = false, features = ["svg"] }
serde = { version = "1", features = ["derive"] }
serde_json = "1"
smol = "2"
tokio = { version = "1", features = ["rt", "rt-multi-thread", "net", "sync", "time", "macros"] }
tokio-tungstenite = "*"
url = "2"
