[package]
name = "bolt_core"
version = "0.1.0"
edition = "2021"
publish = false

[dependencies]
matchit = "=0.8.6"
urlencoding = "=2.1.3"
cookie = "=0.18.2"
regex = "=1.13.1"
chrono = "=0.4.45"
uuid = "=1.29.0"
rust_decimal = "=1.43.0"
governor = "=0.10.4"
jsonwebtoken = "=9.3.1"
serde = { version = "=1.0.229", features = ["derive"] }
serde_json = "=1.0.154"
ahash = "=0.8.12"
dashmap = "=6.2.1"
once_cell = "=1.21.4"
parking_lot = "=0.12.5"
actix = "=0.13.5"
actix-web = { version = "=4.18.1", default-features = false, features = ["macros", "compress-gzip", "ws", "http2", "cookies"] }
actix-web-actors = "=4.3.1"
actix-http = { version = "=3.19.0", features = ["ws"] }
bytes = "=1.12.1"
futures-util = "=0.3.34"
tokio = { version = "=1.54.1", features = ["rt-multi-thread", "sync", "time", "fs", "io-util", "macros"] }
socket2 = "=0.6.5"
fastrand = "=2.5.0"
mimalloc = "=0.1.52"
pyo3 = "=0.30.1"
pyo3-async-runtimes = { version = "=0.30.0", features = ["tokio-runtime"] }
