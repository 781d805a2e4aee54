[package]
name = "lanshare"
version = "0.1.0"
edition = "2021"
publish = false

[dependencies]
base64 = "=0.23.1"
dirs = "=7.0.0"
futures = "=0.3.34"
get_if_addrs = "=0.5.3"
png = "=0.18.1"
qrcode = { version = "=0.14.1", default-features = false }
serde_json = "=1.0.151"
tokio = { version = "=1.53.2", features = ["rt-multi-thread", "macros", "fs", "io-util", "signal", "net"] }
warp = { version = "=0.4.3", features = ["multipart", "server"] }
