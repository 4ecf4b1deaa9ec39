[package]
name = "line-gtk"
version = "0.1.0"
edition = "2021"
publish = false

[dependencies]
anyhow = "=1.0.104"
async-channel = "=2.5.0"
chrono = "=0.4.45"
dirs = "=6.0.0"
discord-rich-presence = "=1.1.0"
image = { version = "=0.25.10", default-features = false, features = ["png", "jpeg", "gif", "webp"] }
ksni = { version = "=0.3.7", features = ["blocking"] }
notify-rust = "=4.18.2"
png = "=0.18.1"
qrcode = "0.14"
serde = { version = "=1.0.229", features = ["derive"] }
serde_json = "=1.0.154"
tracing = "=0.1.44"
tracing-subscriber = { version = "=0.3.23", features = ["env-filter"] }
