[package]
name = "gpt-alarm"
version = "0.1.0"
edition = "2021"
publish = false

[dependencies]
base64 = "=0.22.1"
chrono = "=0.4.45"
serde_json = "=1.0.154"
tokio = { version = "=1.54.1", features = ["full"] }
reqwest = { version = "=0.12.28", default-features = false }
subprocess = "1"
gpio-cdev = "=0.6.0"
gstreamer = "=0.23.7"
gstreamer-app = "=0.23.5"
libc = "=0.2.191"
