[package]
name = "talpa"
version = "0.1.0"
edition = "2021"
publish = false

[dependencies]
anyhow = "1"
hickory-proto = "*"
ipnet = "2"
ipstack = "*"
libc = "0.2"
log = "0.4"
serde = { version = "1", features = ["derive"] }
serde_json = "1"
serde_yaml = "0.9"
simplelog = "0.12"
tokio = { version = "1", features = ["full"] }
tokio-socks = "0.5"
tokio-util = "0.7"
tracing = "0.1"
tray-icon = "*"
tun = { version = "*", features = ["async"] }
ureq = { version = "2", features = ["json"] }
