[package]
name = "websocket_server"
version = "0.1.0"
edition = "2021"
publish = false

[dependencies]
base64 = "0.22"
sha1 = "0.10"
rand = "0.8"
httparse = "1"
tokio = { version = "1", features = ["net", "io-util", "sync", "rt"] }
async-trait = "0.1"
