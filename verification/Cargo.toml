[package]
name = "futures_dns"
version = "0.1.0"
edition = "2021"
publish = false

[dependencies]
hickory-proto = "0.24"
rand = "0.8"
uuid = { version = "1", features = ["v4"] }
resolv-conf = "0.7"
futures = "0.3"
futures-map = "*"
cooked-waker = "5"
spin = "0.9"
log = "0.4"
thiserror = "1"
socket2 = "0.5"
