[package]
name = "static_http_file"
version = "0.1.0"
edition = "2021"
publish = false

[dependencies]
xxhash-rust = { version = "0.8", features = ["xxh3", "const_xxh3"] }
http = "1"
bytes = "1"
parking_lot = "0.12"
tokio = { version = "1", features = ["fs", "io-util"] }
